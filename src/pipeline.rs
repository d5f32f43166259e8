//! A batch: every row of a source read, normalised, and the failures kept
//! beside the import rows, in input order.
use vstd::prelude::*;
use crate::codec::{decode, decoded, row_texts, semicolon_rows, tokenize, Encoding};
use crate::normalize::{
    gastschueler_fields, lemma_name_without_separator_rejected, normalize, schild_fields,
    separator_at, Config,
};
use crate::passphrase::{is_passphrase, texts};
use crate::text::{ends_with, has_suffix};
use crate::record::{
    decode_row, field_spec, gastschueler_spec, schild_spec, Column, FieldError, FieldFault, Fields,
    RecordIserv, RecordType,
};

verus! {

/// Why a row gave no import row. `row` counts the data rows from 1.
#[derive(Clone, Copy, Debug, PartialEq, Eq, Structural)]
pub enum RowError {
    /// The row could not be split into fields.
    Untokenizable { row: usize },
    /// A column could not be read.
    Field { row: usize, error: FieldError },
    /// The combined name holds no `", "`.
    MalformedName { row: usize },
}

/// The import rows of a source and the rows that failed.
pub struct Batch {
    pub records: Vec<RecordIserv>,
    pub errors: Vec<RowError>,
}

/// The header row of a table: its first row, or none where that cannot be read.
pub open spec fn header_of(rows: Seq<Option<Seq<Seq<char>>>>) -> Seq<Seq<char>> {
    if rows.len() > 0 && rows[0] is Some {
        rows[0]->0
    } else {
        Seq::empty()
    }
}

/// The data rows of a table: all rows after the first.
pub open spec fn data_of(rows: Seq<Option<Seq<Seq<char>>>>) -> Seq<Option<Seq<Seq<char>>>> {
    if rows.len() > 0 {
        rows.drop_first()
    } else {
        rows
    }
}

/// What becomes of the data row at position `idx` (from 0).
pub open spec fn row_outcome(
    kind: RecordType,
    header: Seq<Seq<char>>,
    row: Option<Seq<Seq<char>>>,
    idx: int,
    prefixes: Seq<Seq<char>>,
) -> Result<Fields, RowError> {
    match row {
        None => Err(RowError::Untokenizable { row: (idx + 1) as usize }),
        Some(cells) => match kind {
            RecordType::Schild => match schild_spec(header, cells) {
                Err(e) => Err(RowError::Field { row: (idx + 1) as usize, error: e }),
                Ok(t) => Ok(schild_fields(t, prefixes)),
            },
            RecordType::Gastschueler => match gastschueler_spec(header, cells) {
                Err(e) => Err(RowError::Field { row: (idx + 1) as usize, error: e }),
                Ok(t) => match gastschueler_fields(t) {
                    None => Err(RowError::MalformedName { row: (idx + 1) as usize }),
                    Some(f) => Ok(f),
                },
            },
        },
    }
}

/// The import fields of the data rows that succeed, in order.
pub open spec fn kept(
    kind: RecordType,
    header: Seq<Seq<char>>,
    data: Seq<Option<Seq<Seq<char>>>>,
    prefixes: Seq<Seq<char>>,
) -> Seq<Fields>
    decreases data.len(),
{
    if data.len() == 0 {
        Seq::empty()
    } else {
        let prev = kept(kind, header, data.drop_last(), prefixes);
        match row_outcome(kind, header, data.last(), data.len() - 1, prefixes) {
            Ok(f) => prev.push(f),
            Err(_) => prev,
        }
    }
}

/// The errors of the data rows that fail, in order.
pub open spec fn rejected(
    kind: RecordType,
    header: Seq<Seq<char>>,
    data: Seq<Option<Seq<Seq<char>>>>,
    prefixes: Seq<Seq<char>>,
) -> Seq<RowError>
    decreases data.len(),
{
    if data.len() == 0 {
        Seq::empty()
    } else {
        let prev = rejected(kind, header, data.drop_last(), prefixes);
        match row_outcome(kind, header, data.last(), data.len() - 1, prefixes) {
            Ok(_) => prev,
            Err(e) => prev.push(e),
        }
    }
}

/// The import fields of the records of a batch.
pub open spec fn batch_fields(records: Seq<RecordIserv>) -> Seq<Fields> {
    records.map_values(|r: RecordIserv| r.fields())
}

/// Every password of `records` is a passphrase as `config` asks.
pub open spec fn passwords_drawn(records: Seq<RecordIserv>, config: &Config) -> bool {
    forall|k: int|
        0 <= k < records.len() ==> is_passphrase(
            (#[trigger] records[k]).password@,
            config.word_count as nat,
            texts(config.corpus@),
        )
}

/// Reads and normalises one data row; `idx` is its position from 0.
pub fn process_row(
    kind: RecordType,
    header: &Vec<String>,
    row: &Option<Vec<String>>,
    idx: usize,
    config: &Config,
) -> (r: Result<RecordIserv, RowError>)
    requires
        config.wf(),
        idx < usize::MAX,
    ensures
        match r {
            Ok(out) => row_outcome(
                kind,
                texts(header@),
                match row {
                    Some(v) => Some(texts(v@)),
                    None => None,
                },
                idx as int,
                texts(config.grade_prefixes@),
            ) == Ok::<Fields, RowError>(out.fields()) && is_passphrase(
                out.password@,
                config.word_count as nat,
                texts(config.corpus@),
            ),
            Err(e) => row_outcome(
                kind,
                texts(header@),
                match row {
                    Some(v) => Some(texts(v@)),
                    None => None,
                },
                idx as int,
                texts(config.grade_prefixes@),
            ) == Err::<Fields, RowError>(e),
        },
{
    let n = idx + 1;
    match row {
        None => Err(RowError::Untokenizable { row: n }),
        Some(cells) => match decode_row(kind, header, cells) {
            Err(e) => Err(RowError::Field { row: n, error: e }),
            Ok(rec) => match normalize(rec, config) {
                Ok(out) => Ok(out),
                Err(_) => Err(RowError::MalformedName { row: n }),
            },
        },
    }
}

/// Reads a table whose first row is the header as rows of shape `kind`, and
/// normalises each data row. A failing row is recorded and skipped.
pub fn process_rows(kind: RecordType, rows: &Vec<Option<Vec<String>>>, config: &Config) -> (r: Batch)
    requires
        config.wf(),
    ensures
        batch_fields(r.records@) == kept(
            kind,
            header_of(row_texts(rows@)),
            data_of(row_texts(rows@)),
            texts(config.grade_prefixes@),
        ),
        r.errors@ == rejected(
            kind,
            header_of(row_texts(rows@)),
            data_of(row_texts(rows@)),
            texts(config.grade_prefixes@),
        ),
        passwords_drawn(r.records@, config),
{
    let ghost all = row_texts(rows@);
    let ghost prefixes = texts(config.grade_prefixes@);
    let mut records: Vec<RecordIserv> = Vec::new();
    let mut errors: Vec<RowError> = Vec::new();
    if rows.len() == 0 {
        assert(data_of(all) =~= Seq::<Option<Seq<Seq<char>>>>::empty());
        return Batch { records, errors };
    }
    let empty: Vec<String> = Vec::new();
    let header: &Vec<String> = match &rows[0] {
        Some(h) => h,
        None => &empty,
    };
    assert(texts(header@) == header_of(all)) by {
        if rows[0] is None {
            assert(texts(empty@) =~= Seq::<Seq<char>>::empty());
        }
    }
    let ghost h = header_of(all);
    let ghost data = data_of(all);
    let mut i: usize = 1;
    assert(data.subrange(0, 0) =~= Seq::<Option<Seq<Seq<char>>>>::empty());
    assert(batch_fields(records@) =~= Seq::<Fields>::empty());
    while i < rows.len()
        invariant
            1 <= i <= rows.len(),
            config.wf(),
            all == row_texts(rows@),
            prefixes == texts(config.grade_prefixes@),
            h == header_of(all),
            h == texts(header@),
            data == data_of(all),
            data.len() == rows.len() - 1,
            batch_fields(records@) == kept(kind, h, data.subrange(0, i - 1), prefixes),
            errors@ == rejected(kind, h, data.subrange(0, i - 1), prefixes),
            passwords_drawn(records@, config),
        decreases rows.len() - i,
    {
        let ghost before = data.subrange(0, i - 1);
        let ghost after = data.subrange(0, i as int);
        assert(after.drop_last() =~= before);
        assert(after.last() == all[i as int]);
        let out = process_row(kind, header, &rows[i], i - 1, config);
        match out {
            Ok(rec) => {
                records.push(rec);
                assert(batch_fields(records@) =~= batch_fields(records@.drop_last()).push(rec.fields()));
            },
            Err(e) => {
                errors.push(e);
            },
        }
        i = i + 1;
    }
    assert(data.subrange(0, rows.len() - 1) =~= data);
    Batch { records, errors }
}

/// The rows of a text source: its bytes decoded, then split at `;`.
pub open spec fn text_table(encoding: Encoding, bytes: Seq<u8>) -> Seq<Option<Seq<Seq<char>>>> {
    semicolon_rows(decoded(encoding, bytes))
}

/// The import fields that a text source gives.
pub open spec fn text_kept(kind: RecordType, encoding: Encoding, bytes: Seq<u8>, prefixes: Seq<Seq<char>>) -> Seq<Fields> {
    kept(kind, header_of(text_table(encoding, bytes)), data_of(text_table(encoding, bytes)), prefixes)
}

/// The row errors that a text source gives.
pub open spec fn text_rejected(kind: RecordType, encoding: Encoding, bytes: Seq<u8>, prefixes: Seq<Seq<char>>) -> Seq<RowError> {
    rejected(kind, header_of(text_table(encoding, bytes)), data_of(text_table(encoding, bytes)), prefixes)
}

/// Decodes, splits, reads and normalises a semicolon-delimited text source.
pub fn process_text(bytes: &[u8], encoding: Encoding, kind: RecordType, config: &Config) -> (r: Batch)
    requires
        config.wf(),
    ensures
        batch_fields(r.records@) == text_kept(kind, encoding, bytes@, texts(config.grade_prefixes@)),
        r.errors@ == text_rejected(kind, encoding, bytes@, texts(config.grade_prefixes@)),
        passwords_drawn(r.records@, config),
{
    let text = decode(bytes, encoding);
    let rows = tokenize(text.as_str());
    process_rows(kind, &rows, config)
}

/// The import rows of several sources and what failed on the way.
pub struct DirectoryBatch {
    pub records: Vec<RecordIserv>,
    /// Each row error with the position of its source.
    pub errors: Vec<(usize, RowError)>,
    /// The positions of the sources that could not be opened.
    pub unopened: Vec<usize>,
}

/// The views of a list of sources that may have failed to open.
pub open spec fn source_bytes(sources: Seq<Option<Vec<u8>>>) -> Seq<Option<Seq<u8>>> {
    sources.map_values(
        |o: Option<Vec<u8>>|
            match o {
                Some(v) => Some(v@),
                None => None,
            },
    )
}

/// The import fields of all sources that opened, in order.
pub open spec fn sources_kept(
    kind: RecordType,
    encoding: Encoding,
    sources: Seq<Option<Seq<u8>>>,
    prefixes: Seq<Seq<char>>,
) -> Seq<Fields>
    decreases sources.len(),
{
    if sources.len() == 0 {
        Seq::empty()
    } else {
        let prev = sources_kept(kind, encoding, sources.drop_last(), prefixes);
        match sources.last() {
            Some(b) => prev + text_kept(kind, encoding, b, prefixes),
            None => prev,
        }
    }
}

/// The row errors of all sources that opened, each with its source's position.
pub open spec fn sources_rejected(
    kind: RecordType,
    encoding: Encoding,
    sources: Seq<Option<Seq<u8>>>,
    prefixes: Seq<Seq<char>>,
) -> Seq<(usize, RowError)>
    decreases sources.len(),
{
    if sources.len() == 0 {
        Seq::empty()
    } else {
        let prev = sources_rejected(kind, encoding, sources.drop_last(), prefixes);
        match sources.last() {
            Some(b) => prev + text_rejected(kind, encoding, b, prefixes).map_values(
                |e: RowError| ((sources.len() - 1) as usize, e),
            ),
            None => prev,
        }
    }
}

/// The positions of the sources that did not open.
pub open spec fn sources_unopened(sources: Seq<Option<Seq<u8>>>) -> Seq<usize>
    decreases sources.len(),
{
    if sources.len() == 0 {
        Seq::empty()
    } else {
        let prev = sources_unopened(sources.drop_last());
        match sources.last() {
            Some(_) => prev,
            None => prev.push((sources.len() - 1) as usize),
        }
    }
}

/// Processes several text sources in order, each `None` a source that could
/// not be opened; no failure of one source stops the others.
pub fn process_sources(
    sources: &Vec<Option<Vec<u8>>>,
    encoding: Encoding,
    kind: RecordType,
    config: &Config,
) -> (r: DirectoryBatch)
    requires
        config.wf(),
    ensures
        batch_fields(r.records@) == sources_kept(kind, encoding, source_bytes(sources@), texts(config.grade_prefixes@)),
        r.errors@ == sources_rejected(kind, encoding, source_bytes(sources@), texts(config.grade_prefixes@)),
        r.unopened@ == sources_unopened(source_bytes(sources@)),
        passwords_drawn(r.records@, config),
{
    let ghost all = source_bytes(sources@);
    let ghost prefixes = texts(config.grade_prefixes@);
    let mut records: Vec<RecordIserv> = Vec::new();
    let mut errors: Vec<(usize, RowError)> = Vec::new();
    let mut unopened: Vec<usize> = Vec::new();
    let mut k: usize = 0;
    assert(all.subrange(0, 0) =~= Seq::<Option<Seq<u8>>>::empty());
    assert(batch_fields(records@) =~= Seq::<Fields>::empty());
    while k < sources.len()
        invariant
            k <= sources.len(),
            config.wf(),
            all == source_bytes(sources@),
            prefixes == texts(config.grade_prefixes@),
            batch_fields(records@) == sources_kept(kind, encoding, all.subrange(0, k as int), prefixes),
            errors@ == sources_rejected(kind, encoding, all.subrange(0, k as int), prefixes),
            unopened@ == sources_unopened(all.subrange(0, k as int)),
            passwords_drawn(records@, config),
        decreases sources.len() - k,
    {
        let ghost after = all.subrange(0, k + 1);
        assert(after.drop_last() =~= all.subrange(0, k as int));
        assert(after.last() == all[k as int]);
        match &sources[k] {
            None => {
                unopened.push(k);
            },
            Some(bytes) => {
                let mut b = process_text(bytes.as_slice(), encoding, kind, config);
                let ghost old_records = records@;
                let ghost added = b.records@;
                records.append(&mut b.records);
                assert(batch_fields(records@) =~= batch_fields(old_records) + batch_fields(added));
                assert(passwords_drawn(records@, config)) by {
                    assert forall|j: int| 0 <= j < records@.len() implies is_passphrase(
                        (#[trigger] records@[j]).password@,
                        config.word_count as nat,
                        texts(config.corpus@),
                    ) by {
                        if j < old_records.len() {
                            assert(records@[j] == old_records[j]);
                        } else {
                            assert(records@[j] == added[j - old_records.len()]);
                        }
                    }
                }
                let ghost old_errors = errors@;
                let mut j: usize = 0;
                while j < b.errors.len()
                    invariant
                        j <= b.errors.len(),
                        errors@ == old_errors + b.errors@.subrange(0, j as int).map_values(
                            |e: RowError| (k, e),
                        ),
                    decreases b.errors.len() - j,
                {
                    errors.push((k, b.errors[j]));
                    assert(b.errors@.subrange(0, j + 1).map_values(|e: RowError| (k, e)) =~= b.errors@.subrange(0, j as int).map_values(|e: RowError| (k, e)).push((k, b.errors@[j as int])));
                    j = j + 1;
                }
                assert(b.errors@.subrange(0, b.errors.len() as int) =~= b.errors@);
                assert(text_rejected(kind, encoding, bytes@, prefixes).map_values(|e: RowError| ((after.len() - 1) as usize, e)) =~= b.errors@.map_values(|e: RowError| (k, e)));
            },
        }
        k = k + 1;
    }
    assert(all.subrange(0, sources.len() as int) =~= all);
    DirectoryBatch { records, errors, unopened }
}

/// The file names that a directory scan takes: those ending in `.CSV`,
/// upper case, in the order given.
pub open spec fn source_names(names: Seq<Seq<char>>) -> Seq<Seq<char>>
    decreases names.len(),
{
    if names.len() == 0 {
        Seq::empty()
    } else {
        let prev = source_names(names.drop_last());
        if has_suffix(names.last(), ".CSV"@) {
            prev.push(names.last())
        } else {
            prev
        }
    }
}

/// Tells whether a directory scan takes the file `name`: it matches `*.CSV`.
pub fn is_source_file_name(name: &str) -> (r: bool)
    ensures
        r == has_suffix(name@, ".CSV"@),
{
    ends_with(name, ".CSV")
}

/// The names among `names` that a directory scan takes, in the order given.
pub fn select_source_files(names: &Vec<String>) -> (r: Vec<String>)
    ensures
        texts(r@) == source_names(texts(names@)),
{
    let ghost all = texts(names@);
    let mut out: Vec<String> = Vec::new();
    let mut i: usize = 0;
    assert(all.subrange(0, 0) =~= Seq::<Seq<char>>::empty());
    assert(texts(out@) =~= Seq::<Seq<char>>::empty());
    while i < names.len()
        invariant
            i <= names.len(),
            all == texts(names@),
            texts(out@) == source_names(all.subrange(0, i as int)),
        decreases names.len() - i,
    {
        let ghost after = all.subrange(0, i + 1);
        assert(after.drop_last() =~= all.subrange(0, i as int));
        if is_source_file_name(names[i].as_str()) {
            let ghost before = out@;
            out.push(names[i].clone());
            assert(texts(out@) =~= texts(before).push(all[i as int]));
        }
        i = i + 1;
    }
    assert(all.subrange(0, names.len() as int) =~= all);
    out
}

/// A guest-student row whose columns read but whose combined name holds no
/// `", "` gives no import row, only a malformed-name error for that row.
pub proof fn lemma_malformed_row_rejected(
    header: Seq<Seq<char>>,
    cells: Seq<Seq<char>>,
    idx: int,
    prefixes: Seq<Seq<char>>,
)
    requires
        gastschueler_spec(header, cells) is Ok,
        forall|i: int| !separator_at((gastschueler_spec(header, cells)->Ok_0).0, i),
    ensures
        row_outcome(RecordType::Gastschueler, header, Some(cells), idx, prefixes) == Err::<
            Fields,
            RowError,
        >(RowError::MalformedName { row: (idx + 1) as usize }),
{
    lemma_name_without_separator_rejected((gastschueler_spec(header, cells)->Ok_0).0);
}

/// Where every data row succeeds, each gives its import fields, in order,
/// and no row error is recorded.
pub proof fn lemma_all_rows_kept(
    kind: RecordType,
    header: Seq<Seq<char>>,
    data: Seq<Option<Seq<Seq<char>>>>,
    prefixes: Seq<Seq<char>>,
)
    requires
        forall|i: int| 0 <= i < data.len() ==> (#[trigger] row_outcome(kind, header, data[i], i, prefixes)) is Ok,
    ensures
        kept(kind, header, data, prefixes).len() == data.len(),
        forall|i: int| 0 <= i < data.len() ==> kept(kind, header, data, prefixes)[i]
            == (#[trigger] row_outcome(kind, header, data[i], i, prefixes))->Ok_0,
        rejected(kind, header, data, prefixes) == Seq::<RowError>::empty(),
    decreases data.len(),
{
    if data.len() > 0 {
        let front = data.drop_last();
        assert forall|i: int| 0 <= i < front.len() implies (#[trigger] row_outcome(kind, header, front[i], i, prefixes)) is Ok by {
            assert(front[i] == data[i]);
        }
        lemma_all_rows_kept(kind, header, front, prefixes);
        assert(row_outcome(kind, header, data[data.len() - 1], data.len() - 1, prefixes) is Ok);
        assert forall|i: int| 0 <= i < data.len() implies kept(kind, header, data, prefixes)[i]
            == (#[trigger] row_outcome(kind, header, data[i], i, prefixes))->Ok_0 by {
            if i < front.len() {
                assert(front[i] == data[i]);
            }
        }
    }
}

/// A table whose data rows all succeed but one keeps the others' import
/// fields in input order, and records that one row's error alone.
pub proof fn lemma_one_bad_row(
    kind: RecordType,
    header: Seq<Seq<char>>,
    data: Seq<Option<Seq<Seq<char>>>>,
    prefixes: Seq<Seq<char>>,
    bad: int,
)
    requires
        0 <= bad < data.len(),
        row_outcome(kind, header, data[bad], bad, prefixes) is Err,
        forall|i: int| 0 <= i < data.len() && i != bad ==> (#[trigger] row_outcome(kind, header, data[i], i, prefixes)) is Ok,
    ensures
        kept(kind, header, data, prefixes).len() == data.len() - 1,
        forall|i: int| 0 <= i < bad ==> kept(kind, header, data, prefixes)[i]
            == (#[trigger] row_outcome(kind, header, data[i], i, prefixes))->Ok_0,
        forall|i: int| bad < i < data.len() ==> kept(kind, header, data, prefixes)[i - 1]
            == (#[trigger] row_outcome(kind, header, data[i], i, prefixes))->Ok_0,
        rejected(kind, header, data, prefixes) == seq![row_outcome(kind, header, data[bad], bad, prefixes)->Err_0],
    decreases data.len(),
{
    let front = data.drop_last();
    if bad == data.len() - 1 {
        assert forall|i: int| 0 <= i < front.len() implies (#[trigger] row_outcome(kind, header, front[i], i, prefixes)) is Ok by {
            assert(front[i] == data[i]);
        }
        lemma_all_rows_kept(kind, header, front, prefixes);
        assert forall|i: int| 0 <= i < bad implies kept(kind, header, data, prefixes)[i]
            == (#[trigger] row_outcome(kind, header, data[i], i, prefixes))->Ok_0 by {
            assert(front[i] == data[i]);
        }
        assert(rejected(kind, header, data, prefixes) =~= seq![row_outcome(kind, header, data[bad], bad, prefixes)->Err_0]);
    } else {
        assert(front[bad] == data[bad]);
        assert forall|i: int| 0 <= i < front.len() && i != bad implies (#[trigger] row_outcome(kind, header, front[i], i, prefixes)) is Ok by {
            assert(front[i] == data[i]);
        }
        lemma_one_bad_row(kind, header, front, prefixes, bad);
        let last = data.len() - 1;
        assert(row_outcome(kind, header, data[last], last, prefixes) is Ok);
        assert forall|i: int| 0 <= i < bad implies kept(kind, header, data, prefixes)[i]
            == (#[trigger] row_outcome(kind, header, data[i], i, prefixes))->Ok_0 by {
            assert(front[i] == data[i]);
            assert(row_outcome(kind, header, front[i], i, prefixes) == row_outcome(kind, header, data[i], i, prefixes));
        }
        assert forall|i: int| bad < i < data.len() implies kept(kind, header, data, prefixes)[i - 1]
            == (#[trigger] row_outcome(kind, header, data[i], i, prefixes))->Ok_0 by {
            if i < last {
                assert(front[i] == data[i]);
                assert(row_outcome(kind, header, front[i], i, prefixes) == row_outcome(kind, header, data[i], i, prefixes));
            }
        }
    }
}

/// A roster row with an empty cell under one of its columns gives no import
/// row.
pub proof fn lemma_empty_cell_rejected(
    header: Seq<Seq<char>>,
    cells: Seq<Seq<char>>,
    c: Column,
    idx: int,
    prefixes: Seq<Seq<char>>,
)
    requires
        c == Column::Nachname || c == Column::Vorname || c == Column::Klasse || c == Column::Guid,
        field_spec(header, cells, c) == Err::<Seq<char>, FieldFault>(FieldFault::EmptyValue),
    ensures
        row_outcome(RecordType::Schild, header, Some(cells), idx, prefixes) is Err,
{
}

/// A source that could not be opened adds no import row: the result is that
/// of the other sources alone, and its position is among the unopened.
pub proof fn lemma_unopened_source_skipped(
    kind: RecordType,
    encoding: Encoding,
    sources: Seq<Option<Seq<u8>>>,
    prefixes: Seq<Seq<char>>,
    k: int,
)
    requires
        0 <= k < sources.len(),
        sources[k] is None,
    ensures
        sources_kept(kind, encoding, sources, prefixes) == sources_kept(kind, encoding, sources.remove(k), prefixes),
        sources_unopened(sources).contains(k as usize),
    decreases sources.len(),
{
    let front = sources.drop_last();
    if k == sources.len() - 1 {
        assert(sources.remove(k) =~= front);
        assert(sources_unopened(sources).last() == k as usize);
    } else {
        assert(front[k] == sources[k]);
        lemma_unopened_source_skipped(kind, encoding, front, prefixes, k);
        let removed = sources.remove(k);
        assert(removed.drop_last() =~= front.remove(k));
        assert(removed.last() == sources.last());
        let u = sources_unopened(front);
        let j = choose|j: int| 0 <= j < u.len() && u[j] == k as usize;
        if sources.last() is None {
            assert(sources_unopened(sources)[j] == k as usize);
        } else {
            assert(sources_unopened(sources) == u);
        }
    }
}

} // verus!
