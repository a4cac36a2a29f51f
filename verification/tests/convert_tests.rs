use nordea2ynab::{convert, ResolveError, Schema};

fn schema() -> Schema {
    Schema {
        date_column: "Kirjauspäivä".to_string(),
        amount_column: "Määrä".to_string(),
        description_column: "Otsikko".to_string(),
    }
}

fn bytes(text: &str) -> Vec<u8> {
    text.as_bytes().to_vec()
}

const HEADER: &str = "Kirjauspäivä;Määrä;Otsikko\n";

#[test]
fn single_export_maps_all_rows() {
    // No previous export: every usable row appears in the output, in source
    // order, mapped 1:1 onto the output schema.
    let current = bytes(&format!(
        "{}2023-10-02;-12,34;Store\n2023-10-01;5,00;Refund\n",
        HEADER
    ));
    let out = convert(&current, None, &schema()).unwrap();
    assert_eq!(out.written, 2);
    assert_eq!(
        String::from_utf8(out.output).unwrap(),
        "Date,Payee,Memo,Amount\n2023-10-02,Store,,\"-12,34\"\n2023-10-01,Refund,,\"5,00\"\n"
    );
    assert!(out.pending_current.is_empty());
    assert!(out.pending_previous.is_empty());
}

#[test]
fn rerun_with_same_file_emits_nothing() {
    let current = bytes(&format!(
        "{}2023-10-02;-12,34;Store\n2023-10-01;5,00;Refund\n",
        HEADER
    ));
    let first = convert(&current, None, &schema()).unwrap();
    assert_eq!(first.written, 2);
    let second = convert(&current, Some(&current), &schema()).unwrap();
    assert_eq!(second.written, 0);
    assert_eq!(String::from_utf8(second.output).unwrap(), "Date,Payee,Memo,Amount\n");
}

#[test]
fn only_new_rows_are_emitted() {
    let previous = bytes(&format!(
        "{}2023-10-01;-10,00;Coffee\n2023-09-30;-4,00;Bus\n",
        HEADER
    ));
    let current = bytes(&format!(
        "{}2023-10-03;-1,00;Lunch\n2023-10-02;-2,00;Book\n2023-10-01;-10,00;Coffee\n2023-09-30;-4,00;Bus\n",
        HEADER
    ));
    let out = convert(&current, Some(&previous), &schema()).unwrap();
    assert_eq!(out.written, 2);
    assert_eq!(
        String::from_utf8(out.output).unwrap(),
        "Date,Payee,Memo,Amount\n2023-10-03,Lunch,,\"-1,00\"\n2023-10-02,Book,,\"-2,00\"\n"
    );
}

#[test]
fn reconciliation_gap_aborts() {
    // The anchor repeats twice in the previous export but shows up only once
    // in the current one: the run must fail rather than guess.
    let previous = bytes(&format!(
        "{}2023-10-01;-10,00;Coffee\n2023-09-30;-4,00;Bus\n2023-10-01;-10,00;Coffee\n",
        HEADER
    ));
    let current = bytes(&format!(
        "{}2023-10-03;-1,00;Lunch\n2023-10-01;-10,00;Coffee\n",
        HEADER
    ));
    assert_eq!(
        convert(&current, Some(&previous), &schema()).unwrap_err(),
        ResolveError::NonOverlapping { found: 1, expected: 2 }
    );
}

#[test]
fn empty_previous_aborts() {
    let previous = bytes(HEADER);
    let current = bytes(&format!("{}2023-10-03;-1,00;Lunch\n", HEADER));
    assert_eq!(
        convert(&current, Some(&previous), &schema()).unwrap_err(),
        ResolveError::EmptyPrevious
    );
}

#[test]
fn pending_rows_never_reach_the_output() {
    let current = bytes(&format!(
        "{}2023-10-03;-1,00;Lunch\nInvalid date;-9,99;Hold\n2023-10-02;-2,00;Book\n",
        HEADER
    ));
    let out = convert(&current, None, &schema()).unwrap();
    assert_eq!(out.written, 2);
    let text = String::from_utf8(out.output).unwrap();
    assert!(!text.contains("Hold"));
    assert_eq!(out.pending_current.len(), 1);
    assert_eq!(out.pending_current[0].description, "Hold");
}

#[test]
fn pending_rows_cannot_anchor() {
    // The previous export's first row is a pending hold; the anchor must be
    // the first usable row instead, so the run still resolves.
    let previous = bytes(&format!(
        "{}Invalid date;-9,99;Hold\n2023-10-01;-10,00;Coffee\n2023-09-30;-4,00;Bus\n",
        HEADER
    ));
    let current = bytes(&format!(
        "{}2023-10-03;-1,00;Lunch\n2023-10-01;-10,00;Coffee\n2023-09-30;-4,00;Bus\n",
        HEADER
    ));
    let out = convert(&current, Some(&previous), &schema()).unwrap();
    assert_eq!(out.written, 1);
    assert_eq!(out.pending_previous.len(), 1);
}

#[test]
fn malformed_rows_are_skipped() {
    let current = bytes(&format!(
        "{}2023-10-03;-1,00;Lunch\nbroken line\n2023-10-02;-2,00;Book\n",
        HEADER
    ));
    let out = convert(&current, None, &schema()).unwrap();
    assert_eq!(out.written, 2);
}

#[test]
fn missing_column_yields_no_rows() {
    let current = bytes("Kirjauspäivä;Määrä\n2023-10-03;-1,00\n");
    let out = convert(&current, None, &schema()).unwrap();
    assert_eq!(out.written, 0);
    assert_eq!(String::from_utf8(out.output).unwrap(), "Date,Payee,Memo,Amount\n");
}

#[test]
fn quoted_fields_pass_through() {
    let current = bytes(&format!(
        "{}2023-10-03;\"-1;00\";Lunch\n",
        HEADER
    ));
    let out = convert(&current, None, &schema()).unwrap();
    assert_eq!(out.written, 1);
    assert_eq!(
        String::from_utf8(out.output).unwrap(),
        "Date,Payee,Memo,Amount\n2023-10-03,Lunch,,-1;00\n"
    );
}

#[test]
fn alternate_schemas_are_honoured() {
    let schema = Schema {
        date_column: "Booking date".to_string(),
        amount_column: "Amount".to_string(),
        description_column: "Title".to_string(),
    };
    let current = bytes("Booking date;Amount;Title\n2023-10-03;-1.00;Lunch\n");
    let out = convert(&current, None, &schema).unwrap();
    assert_eq!(out.written, 1);
    assert_eq!(
        String::from_utf8(out.output).unwrap(),
        "Date,Payee,Memo,Amount\n2023-10-03,Lunch,,-1.00\n"
    );
}
