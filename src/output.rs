//! The import file: a header row and one row per import record, separated
//! by `;`.
use vstd::prelude::*;
use crate::codec::{semicolon_text, table_texts, write_rows};
use crate::passphrase::texts;
use crate::record::RecordIserv;

verus! {

/// The header row of the import file.
pub open spec fn output_header() -> Seq<Seq<char>> {
    seq!["Nachname"@, "Vorname"@, "Klasse"@, "Import-ID"@, "Password"@]
}

/// The row of the import file for one record.
pub open spec fn output_row(r: RecordIserv) -> Seq<Seq<char>> {
    seq![r.nachname@, r.vorname@, r.klasse@, r.import_id@, r.password@]
}

/// All rows of the import file, header first, records in order.
pub open spec fn output_table(records: Seq<RecordIserv>) -> Seq<Seq<Seq<char>>> {
    seq![output_header()] + records.map_values(|r: RecordIserv| output_row(r))
}

/// The import file could not be written.
#[derive(Clone, Copy, Debug, PartialEq, Eq, Structural)]
pub struct OutputWriteError;

fn header_cells() -> (r: Vec<String>)
    ensures
        r@.len() == 5,
        table_texts(seq![r])[0] == output_header(),
{
    let mut v: Vec<String> = Vec::new();
    v.push("Nachname".to_owned());
    v.push("Vorname".to_owned());
    v.push("Klasse".to_owned());
    v.push("Import-ID".to_owned());
    v.push("Password".to_owned());
    assert(table_texts(seq![v])[0] =~= output_header());
    v
}

fn record_cells(r: &RecordIserv) -> (v: Vec<String>)
    ensures
        v@.len() == 5,
        table_texts(seq![v])[0] == output_row(*r),
{
    let mut v: Vec<String> = Vec::new();
    v.push(r.nachname.clone());
    v.push(r.vorname.clone());
    v.push(r.klasse.clone());
    v.push(r.import_id.clone());
    v.push(r.password.clone());
    assert(table_texts(seq![v])[0] =~= output_row(*r));
    v
}

/// The bytes of the import file for `records`.
pub fn render(records: &Vec<RecordIserv>) -> (r: Result<Vec<u8>, OutputWriteError>)
    ensures
        r is Ok,
        r matches Ok(b) ==> b@ == semicolon_text(output_table(records@)),
{
    let mut rows: Vec<Vec<String>> = Vec::new();
    rows.push(header_cells());
    let mut i: usize = 0;
    while i < records.len()
        invariant
            i <= records.len(),
            rows@.len() == i + 1,
            forall|k: int| 0 <= k < rows@.len() ==> (#[trigger] rows@[k])@.len() == 5,
            table_texts(rows@) =~= output_table(records@.subrange(0, i as int)),
        decreases records.len() - i,
    {
        let row = record_cells(&records[i]);
        let ghost before = rows@;
        rows.push(row);
        assert(rows@ =~= before.push(row));
        assert(table_texts(seq![row])[0] == texts(row@));
        assert(table_texts(rows@) =~= table_texts(before).push(texts(row@)));
        let ghost sub = records@.subrange(0, i as int);
        assert(records@.subrange(0, i + 1) =~= sub.push(records@[i as int]));
        assert(output_table(sub.push(records@[i as int])) =~= output_table(sub).push(output_row(records@[i as int])));
        i = i + 1;
    }
    assert(records@.subrange(0, records.len() as int) =~= records@);
    match write_rows(&rows) {
        Some(b) => Ok(b),
        None => Err(OutputWriteError),
    }
}

} // verus!
