//! Turning a source row into an import row.
use vstd::prelude::*;
use vstd::string::StrSliceExecFns;
use crate::passphrase::{generate, is_passphrase, texts, ConfigurationError};
use crate::record::{Fields, Record, RecordGastschueler, RecordIserv, RecordSchild};
use crate::text::{ends_with, has_prefix, has_suffix, starts_with};

verus! {

/// What a batch is normalised with.
pub struct Config {
    /// Words in each passphrase.
    pub word_count: usize,
    /// Grade prefixes that a roster class is cut down to, tried in order.
    pub grade_prefixes: Vec<String>,
    /// Words that passphrases are made of.
    pub corpus: Vec<String>,
}

impl Config {
    /// Passphrases can be drawn: at least one word each, from a non-empty corpus.
    pub open spec fn wf(&self) -> bool {
        self.word_count >= 1 && self.corpus.len() >= 1
    }

    /// A configuration, refused where no passphrase could be drawn with it.
    pub fn new(word_count: usize, grade_prefixes: Vec<String>, corpus: Vec<String>) -> (r: Option<Config>)
        ensures
            r is Some <==> (word_count >= 1 && corpus.len() >= 1),
            r matches Some(c) ==> c.wf() && c.word_count == word_count && c.grade_prefixes
                == grade_prefixes && c.corpus == corpus,
    {
        if word_count == 0 || corpus.len() == 0 {
            None
        } else {
            Some(Config { word_count, grade_prefixes, corpus })
        }
    }
}

/// The class of a roster row: the first of `prefixes` that `label` starts
/// with, or `label` itself where none does.
pub open spec fn bucket_spec(label: Seq<char>, prefixes: Seq<Seq<char>>) -> Seq<char>
    decreases prefixes.len(),
{
    if prefixes.len() == 0 {
        label
    } else if has_prefix(label, prefixes[0]) {
        prefixes[0]
    } else {
        bucket_spec(label, prefixes.drop_first())
    }
}

/// Cuts a roster class down to its grade prefix.
pub fn class_bucket(label: &str, prefixes: &Vec<String>) -> (r: String)
    ensures
        r@ == bucket_spec(label@, texts(prefixes@)),
{
    let ghost ps = texts(prefixes@);
    let mut i: usize = 0;
    assert(ps.subrange(0, ps.len() as int) =~= ps);
    while i < prefixes.len()
        invariant
            ps == texts(prefixes@),
            i <= prefixes.len(),
            bucket_spec(label@, ps) == bucket_spec(label@, ps.subrange(i as int, ps.len() as int)),
        decreases prefixes.len() - i,
    {
        let ghost rest = ps.subrange(i as int, ps.len() as int);
        assert(rest.drop_first() =~= ps.subrange(i + 1, ps.len() as int));
        if starts_with(label, prefixes[i].as_str()) {
            return prefixes[i].clone();
        }
        i = i + 1;
    }
    label.to_owned()
}

/// A grade prefix that a class starts with is what the class becomes, where
/// all prefixes have two characters.
pub proof fn lemma_grade_prefix_kept(label: Seq<char>, prefixes: Seq<Seq<char>>, p: Seq<char>)
    requires
        prefixes.contains(p),
        has_prefix(label, p),
        forall|i: int| 0 <= i < prefixes.len() ==> (#[trigger] prefixes[i]).len() == 2,
    ensures
        bucket_spec(label, prefixes) == p,
    decreases prefixes.len(),
{
    if has_prefix(label, prefixes[0]) {
        assert(prefixes[0] =~= label.subrange(0, 2));
        assert(p =~= label.subrange(0, 2));
    } else {
        let j = choose|j: int| 0 <= j < prefixes.len() && prefixes[j] == p;
        assert(j != 0);
        assert(prefixes.drop_first()[j - 1] == p);
        lemma_grade_prefix_kept(label, prefixes.drop_first(), p);
    }
}

/// A class that starts with none of the grade prefixes stays as it is.
pub proof fn lemma_unmatched_class_unchanged(label: Seq<char>, prefixes: Seq<Seq<char>>)
    requires
        forall|i: int| 0 <= i < prefixes.len() ==> !has_prefix(label, #[trigger] prefixes[i]),
    ensures
        bucket_spec(label, prefixes) == label,
    decreases prefixes.len(),
{
    if prefixes.len() > 0 {
        assert(!has_prefix(label, prefixes[0]));
        assert forall|i: int| 0 <= i < prefixes.drop_first().len() implies !has_prefix(
            label,
            #[trigger] prefixes.drop_first()[i],
        ) by {
            assert(prefixes.drop_first()[i] == prefixes[i + 1]);
        }
        lemma_unmatched_class_unchanged(label, prefixes.drop_first());
    }
}

/// `", "` starts at position `i` of `s`.
pub open spec fn separator_at(s: Seq<char>, i: int) -> bool {
    0 <= i && i + 1 < s.len() && s[i] == ',' && s[i + 1] == ' '
}

/// `i` is the first position of `", "` in `s`.
pub open spec fn is_first_separator(s: Seq<char>, i: int) -> bool {
    separator_at(s, i) && forall|j: int| 0 <= j < i ==> !separator_at(s, j)
}

/// The guest marker that ends a guest student's given name.
pub open spec fn guest_marker() -> Seq<char> {
    seq![' ', '(', 'G', ')']
}

/// `a` without its first character.
pub open spec fn drop_marker(a: Seq<char>) -> Seq<char> {
    if a.len() > 0 {
        a.subrange(1, a.len() as int)
    } else {
        a
    }
}

/// `g` without a trailing guest marker.
pub open spec fn drop_guest_marker(g: Seq<char>) -> Seq<char> {
    if has_suffix(g, guest_marker()) {
        g.subrange(0, g.len() - 4)
    } else {
        g
    }
}

/// Surname and given name of a combined name: split at the first `", "`,
/// the surname without its leading marker character, the given name without
/// a trailing `" (G)"`; nothing where `", "` does not occur or where either
/// part comes out empty.
pub open spec fn split_name_spec(s: Seq<char>) -> Option<(Seq<char>, Seq<char>)> {
    if exists|i: int| is_first_separator(s, i) {
        let i = choose|i: int| is_first_separator(s, i);
        let surname = drop_marker(s.subrange(0, i));
        let given = drop_guest_marker(s.subrange(i + 2, s.len() as int));
        if surname.len() > 0 && given.len() > 0 {
            Some((surname, given))
        } else {
            None
        }
    } else {
        None
    }
}

proof fn lemma_first_separator(s: Seq<char>, i: int)
    requires
        is_first_separator(s, i),
    ensures
        (choose|k: int| is_first_separator(s, k)) == i,
{
    let k = choose|k: int| is_first_separator(s, k);
    assert(is_first_separator(s, k));
    if k < i {
        assert(!separator_at(s, k));
    }
    if i < k {
        assert(!separator_at(s, i));
    }
}

/// A combined name holds no `", "`, or leaves an empty surname or given name.
#[derive(Clone, Copy, Debug, PartialEq, Eq, Structural)]
pub struct MalformedNameError;

/// Splits a combined name `"Surname, Given (G)"` behind a leading marker
/// character into surname and given name.
pub fn split_name(name: &str) -> (r: Result<(String, String), MalformedNameError>)
    ensures
        match r {
            Ok((a, b)) => split_name_spec(name@) == Some((a@, b@)),
            Err(_) => split_name_spec(name@) is None,
        },
{
    let n = name.unicode_len();
    let mut i: usize = 0;
    while i < n
        invariant
            n == name@.len(),
            i <= n,
            forall|j: int| 0 <= j < i ==> !separator_at(name@, j),
        decreases n - i,
    {
        if i + 1 < n && name.get_char(i) == ',' && name.get_char(i + 1) == ' ' {
            proof {
                lemma_first_separator(name@, i as int);
            }
            let surname = if i > 0 {
                name.substring_char(1, i).to_owned()
            } else {
                String::new()
            };
            let rest = name.substring_char(i + 2, n);
            let m = rest.unicode_len();
            let guest = ends_with(rest, " (G)");
            proof {
                reveal_strlit(" (G)");
                assert(" (G)"@ =~= guest_marker());
                if i > 0 {
                    assert(name@.subrange(0, i as int).subrange(1, i as int) =~= name@.subrange(1, i as int));
                } else {
                    assert(name@.subrange(0, 0) =~= Seq::<char>::empty());
                }
                assert(rest@ == name@.subrange(i + 2, n as int));
                if guest {
                    assert(m >= 4);
                }
            }
            let given = if guest {
                rest.substring_char(0, m - 4).to_owned()
            } else {
                rest.to_owned()
            };
            proof {
                assert(is_first_separator(name@, i as int));
                assert(exists|k: int| is_first_separator(name@, k));
                assert(surname@ == drop_marker(name@.subrange(0, i as int)));
                assert(given@ == drop_guest_marker(rest@));
            }
            if surname.as_str().is_empty() || given.as_str().is_empty() {
                return Err(MalformedNameError);
            }
            return Ok((surname, given));
        }
        i = i + 1;
    }
    assert forall|j: int| !is_first_separator(name@, j) by {
        if 0 <= j && j >= i {
            assert(!separator_at(name@, j));
        }
    }
    Err(MalformedNameError)
}

/// A combined name without `", "` cannot be split.
pub proof fn lemma_name_without_separator_rejected(s: Seq<char>)
    requires
        forall|i: int| !separator_at(s, i),
    ensures
        split_name_spec(s) is None,
{
}

/// A combined name made of a marker character, a surname, `", "`, a given
/// name and `" (G)"` splits into that surname and given name, where the
/// marker and surname hold no `", "` and neither name is empty.
pub proof fn lemma_guest_name_split(marker: char, surname: Seq<char>, given: Seq<char>)
    requires
        surname.len() > 0,
        given.len() > 0,
        forall|i: int| !separator_at(seq![marker] + surname, i),
    ensures
        split_name_spec(seq![marker] + surname + seq![',', ' '] + given + guest_marker()) == Some(
            (surname, given),
        ),
{
    let head = seq![marker] + surname;
    let s = head + seq![',', ' '] + given + guest_marker();
    let i = head.len() as int;
    assert forall|j: int| 0 <= j < i implies !separator_at(s, j) by {
        if j + 1 < i {
            assert(s[j] == head[j] && s[j + 1] == head[j + 1]);
            assert(!separator_at(head, j));
        } else {
            assert(s[j + 1] == ',');
        }
    }
    assert(separator_at(s, i));
    lemma_first_separator(s, i);
    assert(s.subrange(0, i) =~= head);
    assert(drop_marker(head) =~= surname);
    let rest = s.subrange(i + 2, s.len() as int);
    assert(rest =~= given + guest_marker());
    assert(rest.subrange(rest.len() - 4, rest.len() as int) =~= guest_marker());
    assert(has_suffix(rest, guest_marker()));
    assert(rest.subrange(0, rest.len() - 4) =~= given);
    assert(drop_guest_marker(rest) =~= given);
    assert(is_first_separator(s, i));
    assert(exists|k: int| is_first_separator(s, k));
}

impl RecordIserv {
    /// An import row with a fresh passphrase drawn as `config` says; fails
    /// where the corpus of `config` is empty.
    pub fn new(nachname: String, vorname: String, klasse: String, import_id: String, config: &Config) -> (r: Result<RecordIserv, ConfigurationError>)
        requires
            config.word_count >= 1,
        ensures
            r is Err <==> config.corpus.len() == 0,
            r matches Ok(out) ==> out.fields() == (nachname@, vorname@, klasse@, import_id@)
                && is_passphrase(out.password@, config.word_count as nat, texts(config.corpus@)),
    {
        match generate(config.word_count, &config.corpus) {
            Ok(password) => Ok(RecordIserv { nachname, vorname, klasse, import_id, password }),
            Err(e) => Err(e),
        }
    }
}

fn new_drawn(nachname: String, vorname: String, klasse: String, import_id: String, config: &Config) -> (r: RecordIserv)
    requires
        config.wf(),
    ensures
        r.fields() == (nachname@, vorname@, klasse@, import_id@),
        is_passphrase(r.password@, config.word_count as nat, texts(config.corpus@)),
{
    match RecordIserv::new(nachname, vorname, klasse, import_id, config) {
        Ok(out) => out,
        Err(_) => {
            proof {
                assert(false);
            }
            RecordIserv { nachname: String::new(), vorname: String::new(), klasse: String::new(), import_id: String::new(), password: String::new() }
        },
    }
}

/// Import fields of a roster row: names and id as they are, the class cut
/// down to its grade prefix.
pub open spec fn schild_fields(
    rec: (Seq<char>, Seq<char>, Seq<char>, Seq<char>),
    prefixes: Seq<Seq<char>>,
) -> Fields {
    (rec.0, rec.1, bucket_spec(rec.2, prefixes), rec.3)
}

/// Import fields of a guest-student row, where its combined name splits.
pub open spec fn gastschueler_fields(rec: (Seq<char>, Seq<char>, Seq<char>)) -> Option<Fields> {
    match split_name_spec(rec.0) {
        Some((surname, given)) => Some((surname, given, rec.1, rec.2)),
        None => None,
    }
}

/// Normalises a roster row.
pub fn normalize_schild(rec: RecordSchild, config: &Config) -> (r: RecordIserv)
    requires
        config.wf(),
    ensures
        r.fields() == schild_fields(
            (rec.nachname@, rec.vorname@, rec.klasse@, rec.guid@),
            texts(config.grade_prefixes@),
        ),
        is_passphrase(r.password@, config.word_count as nat, texts(config.corpus@)),
{
    let klasse = class_bucket(rec.klasse.as_str(), &config.grade_prefixes);
    new_drawn(rec.nachname, rec.vorname, klasse, rec.guid, config)
}

/// Normalises a guest-student row; fails where its combined name holds no `", "`.
pub fn normalize_gastschueler(rec: RecordGastschueler, config: &Config) -> (r: Result<RecordIserv, MalformedNameError>)
    requires
        config.wf(),
    ensures
        match r {
            Ok(out) => gastschueler_fields((rec.name@, rec.klasse@, rec.schuelernr@)) == Some(out.fields())
                && is_passphrase(out.password@, config.word_count as nat, texts(config.corpus@)),
            Err(_) => gastschueler_fields((rec.name@, rec.klasse@, rec.schuelernr@)) is None,
        },
{
    match split_name(rec.name.as_str()) {
        Ok((nachname, vorname)) => Ok(new_drawn(nachname, vorname, rec.klasse, rec.schuelernr, config)),
        Err(e) => Err(e),
    }
}

/// Import fields of a source row, where it can be normalised.
pub open spec fn record_fields(rec: Record, prefixes: Seq<Seq<char>>) -> Option<Fields> {
    match rec {
        Record::RecordSchild(r) => Some(schild_fields((r.nachname@, r.vorname@, r.klasse@, r.guid@), prefixes)),
        Record::RecordGastschueler(r) => gastschueler_fields((r.name@, r.klasse@, r.schuelernr@)),
    }
}

/// Normalises a source row of either shape.
pub fn normalize(rec: Record, config: &Config) -> (r: Result<RecordIserv, MalformedNameError>)
    requires
        config.wf(),
    ensures
        match r {
            Ok(out) => record_fields(rec, texts(config.grade_prefixes@)) == Some(out.fields())
                && is_passphrase(out.password@, config.word_count as nat, texts(config.corpus@)),
            Err(_) => record_fields(rec, texts(config.grade_prefixes@)) is None,
        },
{
    match rec {
        Record::RecordSchild(r) => Ok(normalize_schild(r, config)),
        Record::RecordGastschueler(r) => normalize_gastschueler(r, config),
    }
}

} // verus!
