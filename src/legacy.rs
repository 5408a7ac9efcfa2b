use chrono::{Datelike, TimeZone, Timelike};
use vstd::prelude::*;
use vstd::string::StrSliceExecFns;

verus! {

/// Strict lexicographic order on text, character by character.
pub open spec fn lex_lt(a: Seq<char>, b: Seq<char>) -> bool
    decreases a.len(),
{
    if a.len() == 0 {
        b.len() > 0
    } else if b.len() == 0 {
        false
    } else if a[0] != b[0] {
        (a[0] as int) < (b[0] as int)
    } else {
        lex_lt(a.drop_first(), b.drop_first())
    }
}

/// Of two different texts, one comes before the other.
pub proof fn lemma_lex_total(a: Seq<char>, b: Seq<char>)
    ensures
        a != b ==> lex_lt(a, b) || lex_lt(b, a),
    decreases a.len(),
{
    if a.len() > 0 && b.len() > 0 && a[0] == b[0] {
        lemma_lex_total(a.drop_first(), b.drop_first());
        if a.drop_first() == b.drop_first() {
            assert(a =~= seq![a[0]].add(a.drop_first()));
            assert(b =~= seq![b[0]].add(b.drop_first()));
        }
    }
    if a.len() > 0 && b.len() > 0 && a[0] != b[0] {
        assert((a[0] as int) != (b[0] as int));
    }
    if a.len() == 0 && b.len() == 0 {
        assert(a =~= b);
    }
}

/// The order is transitive.
pub proof fn lemma_lex_transitive(a: Seq<char>, b: Seq<char>, c: Seq<char>)
    requires
        lex_lt(a, b),
        lex_lt(b, c),
    ensures
        lex_lt(a, c),
    decreases a.len(),
{
    if a.len() > 0 && b.len() > 0 && c.len() > 0 && a[0] == b[0] && b[0] == c[0] {
        lemma_lex_transitive(a.drop_first(), b.drop_first(), c.drop_first());
    }
}

/// Some name of the list is `name`.
pub open spec fn listed(names: Seq<String>, name: Seq<char>) -> bool {
    exists|j: int| 0 <= j < names.len() && (#[trigger] names[j])@ == name
}

/// A legacy recording file: its name ends in ".mid".
pub open spec fn is_mid_file(name: Seq<char>) -> bool {
    name.len() >= 4 && name.subrange(name.len() - 4, name.len() as int) == seq!['.', 'm', 'i', 'd']
}

fn str_less(a: &str, b: &str) -> (r: bool)
    ensures
        r == lex_lt(a@, b@),
{
    let la = a.unicode_len();
    let lb = b.unicode_len();
    let mut i: usize = 0;
    assert(a@.skip(0) =~= a@);
    assert(b@.skip(0) =~= b@);
    while i < la && i < lb
        invariant
            i <= la,
            i <= lb,
            la == a@.len(),
            lb == b@.len(),
            lex_lt(a@, b@) == lex_lt(a@.skip(i as int), b@.skip(i as int)),
        decreases la - i,
    {
        let ca = a.get_char(i);
        let cb = b.get_char(i);
        proof {
            assert(a@.skip(i as int)[0] == ca);
            assert(b@.skip(i as int)[0] == cb);
        }
        if ca != cb {
            return (ca as u32) < (cb as u32);
        }
        proof {
            assert(a@.skip(i as int).drop_first() =~= a@.skip(i + 1));
            assert(b@.skip(i as int).drop_first() =~= b@.skip(i + 1));
        }
        i = i + 1;
    }
    proof {
        assert(a@.skip(i as int).len() == la - i);
        assert(b@.skip(i as int).len() == lb - i);
    }
    la < lb
}

fn is_mid_name(name: &str) -> (r: bool)
    ensures
        r == is_mid_file(name@),
{
    let n = name.unicode_len();
    if n < 4 {
        return false;
    }
    let r = name.get_char(n - 4) == '.' && name.get_char(n - 3) == 'm' && name.get_char(n - 2)
        == 'i' && name.get_char(n - 1) == 'd';
    proof {
        let tail = name@.subrange(n - 4, n as int);
        if r {
            assert(tail =~= seq!['.', 'm', 'i', 'd']);
        } else if tail == seq!['.', 'm', 'i', 'd'] {
            assert(tail[0] == name@[n - 4]);
            assert(tail[1] == name@[n - 3]);
            assert(tail[2] == name@[n - 2]);
            assert(tail[3] == name@[n - 1]);
        }
    }
    r
}

/// The names among `filenames` that end in ".mid", each once, in
/// lexicographic order: the order in which legacy recordings are ingested.
pub fn legacy_files(filenames: &Vec<String>) -> (r: Vec<String>)
    ensures
        forall|i: int, j: int| 0 <= i < j < r@.len() ==> lex_lt(r@[i]@, r@[j]@),
        forall|i: int| 0 <= i < r@.len() ==> is_mid_file(#[trigger] r@[i]@) && listed(filenames@, r@[i]@),
        forall|j: int| 0 <= j < filenames@.len() && is_mid_file(#[trigger] filenames@[j]@) ==> exists|i: int|
            0 <= i < r@.len() && (#[trigger] r@[i])@ == filenames@[j]@,
{
    let mut r: Vec<String> = Vec::new();
    let mut j: usize = 0;
    while j < filenames.len()
        invariant
            j <= filenames@.len(),
            forall|a: int, b: int| 0 <= a < b < r@.len() ==> lex_lt(r@[a]@, r@[b]@),
            forall|i: int| 0 <= i < r@.len() ==> is_mid_file(#[trigger] r@[i]@) && listed(filenames@, r@[i]@),
            forall|k: int| 0 <= k < j && is_mid_file(#[trigger] filenames@[k]@) ==> exists|i: int|
                0 <= i < r@.len() && (#[trigger] r@[i])@ == filenames@[k]@,
        decreases filenames.len() - j,
    {
        let name = &filenames[j];
        if is_mid_name(name.as_str()) {
            let mut p: usize = 0;
            while p < r.len() && str_less(r[p].as_str(), name.as_str())
                invariant
                    p <= r@.len(),
                    forall|k: int| 0 <= k < p ==> lex_lt(#[trigger] r@[k]@, name@),
                decreases r.len() - p,
            {
                p = p + 1;
            }
            let duplicate = p < r.len() && r[p] == *name;
            if !duplicate {
                let ghost old_r = r@;
                proof {
                    if p < old_r.len() {
                        lemma_lex_total(old_r[p as int]@, name@);
                    }
                }
                r.insert(p, name.clone());
                proof {
                    assert forall|a: int, b: int| 0 <= a < b < r@.len() implies lex_lt(r@[a]@, r@[b]@) by {
                        if b == p {
                            assert(r@[a] == old_r[a]);
                        } else if a == p {
                            assert(r@[b] == old_r[b - 1]);
                            if b - 1 > p {
                                lemma_lex_transitive(name@, old_r[p as int]@, old_r[b - 1]@);
                            }
                        } else {
                            let a0 = if a < p { a } else { a - 1 };
                            let b0 = if b < p { b } else { b - 1 };
                            assert(r@[a] == old_r[a0]);
                            assert(r@[b] == old_r[b0]);
                        }
                    }
                    assert forall|i: int| 0 <= i < r@.len() implies is_mid_file(#[trigger] r@[i]@) && listed(filenames@, r@[i]@) by {
                        if i == p {
                            assert(filenames@[j as int]@ == r@[i]@);
                        } else {
                            let i0 = if i < p { i } else { i - 1 };
                            assert(r@[i] == old_r[i0]);
                        }
                    }
                    assert forall|k: int| 0 <= k < j + 1 && is_mid_file(#[trigger] filenames@[k]@) implies exists|i: int|
                        0 <= i < r@.len() && (#[trigger] r@[i])@ == filenames@[k]@ by {
                        if k == j {
                            assert(r@[p as int]@ == filenames@[k]@);
                        } else {
                            let i0 = choose|i: int| 0 <= i < old_r.len() && (#[trigger] old_r[i])@ == filenames@[k]@;
                            let i1 = if i0 < p { i0 } else { i0 + 1 };
                            assert(r@[i1] == old_r[i0]);
                        }
                    }
                }
            } else {
                proof {
                    assert forall|k: int| 0 <= k < j + 1 && is_mid_file(#[trigger] filenames@[k]@) implies exists|i: int|
                        0 <= i < r@.len() && (#[trigger] r@[i])@ == filenames@[k]@ by {
                        if k == j {
                            assert(r@[p as int]@ == filenames@[k]@);
                        }
                    }
                }
            }
        }
        j = j + 1;
    }
    r
}

/// A date and time on a clock, as a legacy file name spells it.
#[derive(Debug, Clone, Copy, PartialEq, Eq, Structural)]
pub struct CivilTime {
    pub year: i32,
    pub month: u32,
    pub day: u32,
    pub hour: u32,
    pub minute: u32,
    pub second: u32,
}

/// The date and time that `text` spells in chrono's `format`, if it does.
pub uninterp spec fn parsed_civil_time(text: Seq<char>, format: Seq<char>) -> Option<CivilTime>;

/// Relies on chrono's `NaiveDateTime::parse_from_str`, whose result depends
/// on the text and the format alone.
#[verifier::external_body]
fn parse_civil_time(text: &str, format: &str) -> (r: Option<CivilTime>)
    ensures
        r == parsed_civil_time(text@, format@),
{
    let t = chrono::NaiveDateTime::parse_from_str(text, format).ok()?;
    Some(CivilTime { year: t.year(), month: t.month(), day: t.day(), hour: t.hour(), minute: t.minute(), second: t.second() })
}

/// Relies on chrono's `Local` time zone: the latest instant, in microseconds
/// since the Unix epoch, at which this machine's clock shows `t`; none when
/// it never does. It depends on the machine's time zone, so nothing more is
/// stated of it.
#[verifier::external_body]
fn local_instant_micros(t: &CivilTime) -> Option<i64> {
    let date = chrono::NaiveDate::from_ymd_opt(t.year, t.month, t.day)?;
    let naive = date.and_hms_opt(t.hour, t.minute, t.second)?;
    chrono::Local.from_local_datetime(&naive).latest().map(|l| l.timestamp_micros())
}

/// How a legacy file name spells its creation time, before ".mid".
pub open spec fn legacy_time_format() -> Seq<char> {
    "%Y%m%d-%H%M%S"@
}

/// The creation time of a legacy recording, in microseconds since the Unix
/// epoch: the local time its name spells, or `now_micros` when the name
/// spells none (or a local time that never occurs).
pub fn legacy_created_at(filename: &str, now_micros: i64) -> (r: i64)
    requires
        is_mid_file(filename@),
    ensures
        parsed_civil_time(filename@.subrange(0, filename@.len() - 4), legacy_time_format()) is None
            ==> r == now_micros,
{
    let n = filename.unicode_len();
    let stem = filename.substring_char(0, n - 4);
    match parse_civil_time(stem, "%Y%m%d-%H%M%S") {
        None => now_micros,
        Some(t) => match local_instant_micros(&t) {
            Some(micros) => micros,
            None => now_micros,
        },
    }
}

} // verus!
