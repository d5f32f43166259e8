//! The two source row shapes, the output row, and reading a source row out
//! of a header and a list of cells.
use vstd::prelude::*;

verus! {

/// A row of the roster export.
#[derive(Clone, Debug)]
pub struct RecordSchild {
    pub nachname: String,
    pub vorname: String,
    pub klasse: String,
    pub guid: String,
}

/// A row of the guest-student export; `name` reads `"Surname, Given (G)"`
/// behind a leading marker character.
#[derive(Clone, Debug)]
pub struct RecordGastschueler {
    pub name: String,
    pub klasse: String,
    pub schuelernr: String,
}

/// A source row of either shape.
#[derive(Clone, Debug)]
pub enum Record {
    RecordSchild(RecordSchild),
    RecordGastschueler(RecordGastschueler),
}

/// Which source shape a whole batch is read as.
#[derive(Clone, Copy, Debug, PartialEq, Eq, Structural)]
pub enum RecordType {
    Schild,
    Gastschueler,
}

/// A row of the import file.
#[derive(Clone, Debug)]
pub struct RecordIserv {
    pub nachname: String,
    pub vorname: String,
    pub klasse: String,
    pub import_id: String,
    pub password: String,
}

/// The four text fields of an import row that do not depend on chance.
pub type Fields = (Seq<char>, Seq<char>, Seq<char>, Seq<char>);

impl RecordIserv {
    /// Surname, given name, class and import id.
    pub open spec fn fields(&self) -> Fields {
        (self.nachname@, self.vorname@, self.klasse@, self.import_id@)
    }
}

/// A column that a source shape reads.
#[derive(Clone, Copy, Debug, PartialEq, Eq, Structural)]
pub enum Column {
    Nachname,
    Vorname,
    Klasse,
    Guid,
    Name,
    KlasseUpper,
    Schuelernr,
}

/// The header under which a column stands.
pub open spec fn column_header(c: Column) -> Seq<char> {
    match c {
        Column::Nachname => "Nachname"@,
        Column::Vorname => "Vorname"@,
        Column::Klasse => "Klasse"@,
        Column::Guid => "eindeutige Nummer (GUID)"@,
        Column::Name => "NAME, VORNAME"@,
        Column::KlasseUpper => "KLASSE"@,
        Column::Schuelernr => "SCHÜLERNR"@,
    }
}

impl Column {
    /// The header under which this column stands.
    pub fn header(&self) -> (r: &'static str)
        ensures
            r@ == column_header(*self),
    {
        match self {
            Column::Nachname => "Nachname",
            Column::Vorname => "Vorname",
            Column::Klasse => "Klasse",
            Column::Guid => "eindeutige Nummer (GUID)",
            Column::Name => "NAME, VORNAME",
            Column::KlasseUpper => "KLASSE",
            Column::Schuelernr => "SCHÜLERNR",
        }
    }
}

/// Why a column could not be read from a row.
#[derive(Clone, Copy, Debug, PartialEq, Eq, Structural)]
pub enum FieldFault {
    /// The header lacks the column, or the row has no cell under it.
    MissingColumn,
    /// The cell under the column is empty.
    EmptyValue,
}

/// `j` is the first position of `name` in `header`.
pub open spec fn is_first_column(header: Seq<Seq<char>>, name: Seq<char>, j: int) -> bool {
    0 <= j < header.len() && header[j] == name && forall|k: int| 0 <= k < j ==> header[k] != name
}

/// The first position of `name` in `header`, if any.
pub open spec fn column_of(header: Seq<Seq<char>>, name: Seq<char>) -> Option<int> {
    if exists|j: int| is_first_column(header, name, j) {
        Some(choose|j: int| is_first_column(header, name, j))
    } else {
        None
    }
}

/// The cell of `row` under column `c`, or why there is none.
pub open spec fn field_spec(header: Seq<Seq<char>>, row: Seq<Seq<char>>, c: Column) -> Result<
    Seq<char>,
    FieldFault,
> {
    match column_of(header, column_header(c)) {
        None => Err(FieldFault::MissingColumn),
        Some(j) => if j >= row.len() {
            Err(FieldFault::MissingColumn)
        } else if row[j].len() == 0 {
            Err(FieldFault::EmptyValue)
        } else {
            Ok(row[j])
        },
    }
}

proof fn lemma_first_column_unique(header: Seq<Seq<char>>, name: Seq<char>, j: int)
    requires
        is_first_column(header, name, j),
    ensures
        column_of(header, name) == Some(j),
{
    let k = choose|k: int| is_first_column(header, name, k);
    assert(is_first_column(header, name, k));
    if k < j {
        assert(header[k] != name);
    }
    if j < k {
        assert(header[j] != name);
    }
}

/// The first position of `name` in `header`, if any.
pub fn find_column(header: &Vec<String>, name: &str) -> (r: Option<usize>)
    ensures
        r matches Some(j) ==> column_of(header@.map_values(|s: String| s@), name@) == Some(j as int),
        r is None ==> column_of(header@.map_values(|s: String| s@), name@) is None,
{
    let ghost h = header@.map_values(|s: String| s@);
    let target = name.to_owned();
    let mut j: usize = 0;
    while j < header.len()
        invariant
            h == header@.map_values(|s: String| s@),
            target@ == name@,
            j <= header.len(),
            forall|k: int| 0 <= k < j ==> h[k] != name@,
        decreases header.len() - j,
    {
        if header[j] == target {
            proof {
                lemma_first_column_unique(h, name@, j as int);
            }
            return Some(j);
        }
        j = j + 1;
    }
    assert(!exists|k: int| is_first_column(h, name@, k));
    None
}

/// The cell of `row` under column `c`.
pub fn read_field(header: &Vec<String>, row: &Vec<String>, c: Column) -> (r: Result<String, FieldFault>)
    ensures
        match r {
            Ok(v) => field_spec(header@.map_values(|s: String| s@), row@.map_values(|s: String| s@), c) == Ok::<Seq<char>, FieldFault>(v@),
            Err(f) => field_spec(header@.map_values(|s: String| s@), row@.map_values(|s: String| s@), c) == Err::<Seq<char>, FieldFault>(f),
        },
{
    match find_column(header, c.header()) {
        None => Err(FieldFault::MissingColumn),
        Some(j) => {
            if j >= row.len() {
                Err(FieldFault::MissingColumn)
            } else if row[j].as_str().is_empty() {
                Err(FieldFault::EmptyValue)
            } else {
                Ok(row[j].clone())
            }
        },
    }
}

/// The column that a source row lacks, and how.
#[derive(Clone, Copy, Debug, PartialEq, Eq, Structural)]
pub struct FieldError {
    pub column: Column,
    pub fault: FieldFault,
}

/// Surname, given name, class and id of a roster row, read in that order;
/// the first column that cannot be read is the error.
pub open spec fn schild_spec(header: Seq<Seq<char>>, row: Seq<Seq<char>>) -> Result<
    (Seq<char>, Seq<char>, Seq<char>, Seq<char>),
    FieldError,
> {
    match field_spec(header, row, Column::Nachname) {
        Err(f) => Err(FieldError { column: Column::Nachname, fault: f }),
        Ok(n) => match field_spec(header, row, Column::Vorname) {
            Err(f) => Err(FieldError { column: Column::Vorname, fault: f }),
            Ok(v) => match field_spec(header, row, Column::Klasse) {
                Err(f) => Err(FieldError { column: Column::Klasse, fault: f }),
                Ok(k) => match field_spec(header, row, Column::Guid) {
                    Err(f) => Err(FieldError { column: Column::Guid, fault: f }),
                    Ok(g) => Ok((n, v, k, g)),
                },
            },
        },
    }
}

/// Combined name, class and student number of a guest-student row, read in
/// that order; the first column that cannot be read is the error.
pub open spec fn gastschueler_spec(header: Seq<Seq<char>>, row: Seq<Seq<char>>) -> Result<
    (Seq<char>, Seq<char>, Seq<char>),
    FieldError,
> {
    match field_spec(header, row, Column::Name) {
        Err(f) => Err(FieldError { column: Column::Name, fault: f }),
        Ok(n) => match field_spec(header, row, Column::KlasseUpper) {
            Err(f) => Err(FieldError { column: Column::KlasseUpper, fault: f }),
            Ok(k) => match field_spec(header, row, Column::Schuelernr) {
                Err(f) => Err(FieldError { column: Column::Schuelernr, fault: f }),
                Ok(s) => Ok((n, k, s)),
            },
        },
    }
}

fn field_or_error(header: &Vec<String>, row: &Vec<String>, c: Column) -> (r: Result<String, FieldError>)
    ensures
        match r {
            Ok(v) => field_spec(header@.map_values(|s: String| s@), row@.map_values(|s: String| s@), c) == Ok::<Seq<char>, FieldFault>(v@),
            Err(e) => e.column == c && field_spec(header@.map_values(|s: String| s@), row@.map_values(|s: String| s@), c) == Err::<Seq<char>, FieldFault>(e.fault),
        },
{
    match read_field(header, row, c) {
        Ok(v) => Ok(v),
        Err(f) => Err(FieldError { column: c, fault: f }),
    }
}

/// Reads a roster row whose columns are named by `header`. Every column must
/// be present and non-empty.
pub fn decode_schild(header: &Vec<String>, row: &Vec<String>) -> (r: Result<RecordSchild, FieldError>)
    ensures
        match r {
            Ok(rec) => schild_spec(header@.map_values(|s: String| s@), row@.map_values(|s: String| s@)) == Ok::<_, FieldError>((rec.nachname@, rec.vorname@, rec.klasse@, rec.guid@)),
            Err(e) => schild_spec(header@.map_values(|s: String| s@), row@.map_values(|s: String| s@)) == Err::<(Seq<char>, Seq<char>, Seq<char>, Seq<char>), FieldError>(e),
        },
{
    let nachname = match field_or_error(header, row, Column::Nachname) {
        Ok(v) => v,
        Err(e) => return Err(e),
    };
    let vorname = match field_or_error(header, row, Column::Vorname) {
        Ok(v) => v,
        Err(e) => return Err(e),
    };
    let klasse = match field_or_error(header, row, Column::Klasse) {
        Ok(v) => v,
        Err(e) => return Err(e),
    };
    let guid = match field_or_error(header, row, Column::Guid) {
        Ok(v) => v,
        Err(e) => return Err(e),
    };
    Ok(RecordSchild { nachname, vorname, klasse, guid })
}

/// Reads a guest-student row whose columns are named by `header`. Every
/// column must be present and non-empty.
pub fn decode_gastschueler(header: &Vec<String>, row: &Vec<String>) -> (r: Result<RecordGastschueler, FieldError>)
    ensures
        match r {
            Ok(rec) => gastschueler_spec(header@.map_values(|s: String| s@), row@.map_values(|s: String| s@)) == Ok::<_, FieldError>((rec.name@, rec.klasse@, rec.schuelernr@)),
            Err(e) => gastschueler_spec(header@.map_values(|s: String| s@), row@.map_values(|s: String| s@)) == Err::<(Seq<char>, Seq<char>, Seq<char>), FieldError>(e),
        },
{
    let name = match field_or_error(header, row, Column::Name) {
        Ok(v) => v,
        Err(e) => return Err(e),
    };
    let klasse = match field_or_error(header, row, Column::KlasseUpper) {
        Ok(v) => v,
        Err(e) => return Err(e),
    };
    let schuelernr = match field_or_error(header, row, Column::Schuelernr) {
        Ok(v) => v,
        Err(e) => return Err(e),
    };
    Ok(RecordGastschueler { name, klasse, schuelernr })
}

/// Reads a row as the shape `kind`.
pub fn decode_row(kind: RecordType, header: &Vec<String>, row: &Vec<String>) -> (r: Result<Record, FieldError>)
    ensures
        kind == RecordType::Schild ==> match r {
            Ok(Record::RecordSchild(rec)) => schild_spec(header@.map_values(|s: String| s@), row@.map_values(|s: String| s@)) == Ok::<_, FieldError>((rec.nachname@, rec.vorname@, rec.klasse@, rec.guid@)),
            Ok(Record::RecordGastschueler(_)) => false,
            Err(e) => schild_spec(header@.map_values(|s: String| s@), row@.map_values(|s: String| s@)) == Err::<(Seq<char>, Seq<char>, Seq<char>, Seq<char>), FieldError>(e),
        },
        kind == RecordType::Gastschueler ==> match r {
            Ok(Record::RecordGastschueler(rec)) => gastschueler_spec(header@.map_values(|s: String| s@), row@.map_values(|s: String| s@)) == Ok::<_, FieldError>((rec.name@, rec.klasse@, rec.schuelernr@)),
            Ok(Record::RecordSchild(_)) => false,
            Err(e) => gastschueler_spec(header@.map_values(|s: String| s@), row@.map_values(|s: String| s@)) == Err::<(Seq<char>, Seq<char>, Seq<char>), FieldError>(e),
        },
{
    match kind {
        RecordType::Schild => match decode_schild(header, row) {
            Ok(rec) => Ok(Record::RecordSchild(rec)),
            Err(e) => Err(e),
        },
        RecordType::Gastschueler => match decode_gastschueler(header, row) {
            Ok(rec) => Ok(Record::RecordGastschueler(rec)),
            Err(e) => Err(e),
        },
    }
}

} // verus!
