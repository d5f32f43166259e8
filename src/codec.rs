//! Character decoding and semicolon-delimited text, through encoding_rs and csv.
use vstd::prelude::*;
use crate::passphrase::texts;

verus! {

/// The character encoding of a text source.
#[derive(Clone, Copy, Debug, PartialEq, Eq, Structural)]
pub enum Encoding {
    Utf8,
    Windows,
}

/// The text that encoding_rs decodes from UTF-8 bytes, a leading byte order
/// mark removed and malformed sequences replaced.
pub uninterp spec fn utf8_decoded(bytes: Seq<u8>) -> Seq<char>;

/// The text that encoding_rs decodes from windows-1252 bytes.
pub uninterp spec fn windows_1252_decoded(bytes: Seq<u8>) -> Seq<char>;

/// The rows that csv reads from `text` with `;` between fields and no header
/// handling, blank lines skipped; a row that cannot be read is `None`.
pub uninterp spec fn semicolon_rows(text: Seq<char>) -> Seq<Option<Seq<Seq<char>>>>;

/// The bytes that csv writes for `rows` with `;` between fields, quoting
/// where needed.
pub uninterp spec fn semicolon_text(rows: Seq<Seq<Seq<char>>>) -> Seq<u8>;

/// The text of `bytes` in `encoding`.
pub open spec fn decoded(encoding: Encoding, bytes: Seq<u8>) -> Seq<char> {
    match encoding {
        Encoding::Utf8 => utf8_decoded(bytes),
        Encoding::Windows => windows_1252_decoded(bytes),
    }
}

/// The views of a list of rows whose reading may have failed.
pub open spec fn row_texts(rows: Seq<Option<Vec<String>>>) -> Seq<Option<Seq<Seq<char>>>> {
    rows.map_values(
        |o: Option<Vec<String>>|
            match o {
                Some(v) => Some(texts(v@)),
                None => None,
            },
    )
}

/// The views of a list of rows.
pub open spec fn table_texts(rows: Seq<Vec<String>>) -> Seq<Seq<Seq<char>>> {
    rows.map_values(|v: Vec<String>| texts(v@))
}

/// Relies on encoding_rs's `Encoding::decode_with_bom_removal` on `UTF_8`:
/// the text depends on the bytes alone.
#[verifier::external_body]
fn decode_utf8(bytes: &[u8]) -> (r: String)
    ensures
        r@ == utf8_decoded(bytes@),
{
    encoding_rs::UTF_8.decode_with_bom_removal(bytes).0.into_owned()
}

/// Relies on encoding_rs's `Encoding::decode_with_bom_removal` on
/// `WINDOWS_1252`: the text depends on the bytes alone.
#[verifier::external_body]
fn decode_windows_1252(bytes: &[u8]) -> (r: String)
    ensures
        r@ == windows_1252_decoded(bytes@),
{
    encoding_rs::WINDOWS_1252.decode_with_bom_removal(bytes).0.into_owned()
}

/// Decodes the bytes of a text source.
pub fn decode(bytes: &[u8], encoding: Encoding) -> (r: String)
    ensures
        r@ == decoded(encoding, bytes@),
{
    match encoding {
        Encoding::Utf8 => decode_utf8(bytes),
        Encoding::Windows => decode_windows_1252(bytes),
    }
}

/// Relies on csv's `ReaderBuilder` with delimiter `;` and no header, and its
/// `Reader::records`: the rows depend on the text alone.
#[verifier::external_body]
fn csv_records(text: &str) -> (r: Vec<Option<Vec<String>>>)
    ensures
        row_texts(r@) == semicolon_rows(text@),
{
    let mut reader = csv::ReaderBuilder::new().delimiter(b';').has_headers(false).from_reader(
        text.as_bytes(),
    );
    reader.records().map(|rec| rec.ok().map(|fields| fields.iter().map(|f| f.to_string()).collect())).collect()
}

/// Splits semicolon-delimited text into rows of fields.
pub fn tokenize(text: &str) -> (r: Vec<Option<Vec<String>>>)
    ensures
        row_texts(r@) == semicolon_rows(text@),
{
    csv_records(text)
}

/// Relies on csv's `WriterBuilder` with delimiter `;` over a `Vec<u8>`, its
/// `Writer::write_record` and `Writer::into_inner`: where nothing fails, the
/// bytes depend on the rows alone. Over a `Vec<u8>` no write or flush fails;
/// the one error left is a row whose length differs from the first row's.
#[verifier::external_body]
fn csv_write(rows: &Vec<Vec<String>>) -> (r: Option<Vec<u8>>)
    ensures
        r matches Some(b) ==> b@ == semicolon_text(table_texts(rows@)),
        (forall|i: int| 0 <= i < rows@.len() ==> (#[trigger] rows@[i])@.len() == rows@[0]@.len()) ==> r is Some,
{
    let mut writer = csv::WriterBuilder::new().delimiter(b';').from_writer(Vec::new());
    for row in rows {
        if writer.write_record(row).is_err() {
            return None;
        }
    }
    writer.into_inner().ok()
}

/// Writes rows as semicolon-delimited text; rows of one length always succeed.
pub fn write_rows(rows: &Vec<Vec<String>>) -> (r: Option<Vec<u8>>)
    ensures
        r matches Some(b) ==> b@ == semicolon_text(table_texts(rows@)),
        (forall|i: int| 0 <= i < rows@.len() ==> (#[trigger] rows@[i])@.len() == rows@[0]@.len()) ==> r is Some,
{
    csv_write(rows)
}

} // verus!
