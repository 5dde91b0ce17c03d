//! Tag normalization: trimming, comma splitting and joining, and
//! case-insensitive deduplication that keeps the casing and order of
//! first occurrence.

use vstd::prelude::*;

verus! {

/// A Unicode `White_Space` character, the set `str::trim` removes.
pub open spec fn is_space(c: char) -> bool {
    ||| c == '\u{0009}' || c == '\u{000A}' || c == '\u{000B}' || c == '\u{000C}'
        || c == '\u{000D}' || c == ' '
    ||| c == '\u{0085}' || c == '\u{00A0}' || c == '\u{1680}'
    ||| c == '\u{2000}' || c == '\u{2001}' || c == '\u{2002}' || c == '\u{2003}'
        || c == '\u{2004}' || c == '\u{2005}' || c == '\u{2006}' || c == '\u{2007}'
        || c == '\u{2008}' || c == '\u{2009}' || c == '\u{200A}'
    ||| c == '\u{2028}' || c == '\u{2029}' || c == '\u{202F}' || c == '\u{205F}'
        || c == '\u{3000}'
}

pub open spec fn trim_start_spec(s: Seq<char>) -> Seq<char>
    decreases s.len(),
{
    if s.len() == 0 {
        s
    } else if is_space(s[0]) {
        trim_start_spec(s.skip(1))
    } else {
        s
    }
}

pub open spec fn trim_end_spec(s: Seq<char>) -> Seq<char>
    decreases s.len(),
{
    if s.len() == 0 {
        s
    } else if is_space(s.last()) {
        trim_end_spec(s.drop_last())
    } else {
        s
    }
}

/// What `str::trim` leaves: the text without leading and trailing whitespace.
pub open spec fn trim_spec(s: Seq<char>) -> Seq<char> {
    trim_end_spec(trim_start_spec(s))
}

/// The pieces of `s` between commas, in order; always one more piece
/// than there are commas.
pub open spec fn split_commas(s: Seq<char>) -> Seq<Seq<char>>
    decreases s.len(),
{
    if s.len() == 0 {
        seq![Seq::<char>::empty()]
    } else if s[0] == ',' {
        seq![Seq::<char>::empty()] + split_commas(s.skip(1))
    } else {
        let rest = split_commas(s.skip(1));
        seq![seq![s[0]] + rest[0]] + rest.skip(1)
    }
}

/// Trim every piece and drop the empty ones.
pub open spec fn clean_tags_spec(ts: Seq<Seq<char>>) -> Seq<Seq<char>> {
    ts.map_values(|t: Seq<char>| trim_spec(t)).filter(|t: Seq<char>| t.len() > 0)
}

/// The comma-separated storage form of a tag list.
pub open spec fn join_commas(ts: Seq<Seq<char>>) -> Seq<char>
    decreases ts.len(),
{
    if ts.len() == 0 {
        Seq::empty()
    } else if ts.len() == 1 {
        ts[0]
    } else {
        ts[0] + seq![','] + join_commas(ts.skip(1))
    }
}

/// Strict lexicographic order on text by code point, the order SQLite's
/// BINARY collation gives UTF-8 text.
pub open spec fn seq_lt(a: Seq<char>, b: Seq<char>) -> bool
    decreases a.len(),
{
    if b.len() == 0 {
        false
    } else if a.len() == 0 {
        true
    } else if a[0] < b[0] {
        true
    } else if b[0] < a[0] {
        false
    } else {
        seq_lt(a.skip(1), b.skip(1))
    }
}

pub open spec fn seq_le(a: Seq<char>, b: Seq<char>) -> bool {
    seq_lt(a, b) || a == b
}

/// No text sorts strictly before itself.
pub proof fn lemma_seq_lt_irrefl(s: Seq<char>)
    ensures
        !seq_lt(s, s),
    decreases s.len(),
{
    if s.len() > 0 {
        lemma_seq_lt_irrefl(s.skip(1));
    }
}

/// ASCII lowercasing, the folding SQLite's `lower()` applies.
pub open spec fn ascii_lower(s: Seq<char>) -> Seq<char> {
    s.map_values(|c: char| if 'A' <= c && c <= 'Z' { ((c as u8) + 32) as char } else { c })
}

/// What `str::to_lowercase` returns; it depends on the characters alone.
pub uninterp spec fn lower_of(s: Seq<char>) -> Seq<char>;

/// Relies on `str::to_lowercase`: the lowercase form of the text,
/// a function of the characters alone.
#[verifier::external_body]
pub(crate) fn lowercase_text(s: &str) -> (r: String)
    ensures
        r@ == lower_of(s@),
{
    s.to_lowercase()
}

/// Trimmed nonempty tags in input order, keeping only the first tag of
/// each lowercase key that is not already in `seen`.
pub open spec fn dedup_tags(ts: Seq<Seq<char>>, seen: Set<Seq<char>>) -> Seq<Seq<char>>
    decreases ts.len(),
{
    if ts.len() == 0 {
        Seq::empty()
    } else {
        let t = trim_spec(ts[0]);
        if t.len() == 0 || seen.contains(lower_of(t)) {
            dedup_tags(ts.skip(1), seen)
        } else {
            seq![t] + dedup_tags(ts.skip(1), seen.insert(lower_of(t)))
        }
    }
}

/// The normalized form of a free-text tag list.
pub open spec fn normalize_task_tags_spec(ts: Seq<Seq<char>>) -> Seq<Seq<char>> {
    dedup_tags(ts, Set::empty())
}

pub fn char_is_space(c: char) -> (b: bool)
    ensures
        b == is_space(c),
{
    c == '\u{0009}' || c == '\u{000A}' || c == '\u{000B}' || c == '\u{000C}'
        || c == '\u{000D}' || c == ' ' || c == '\u{0085}' || c == '\u{00A0}'
        || c == '\u{1680}' || c == '\u{2000}' || c == '\u{2001}' || c == '\u{2002}'
        || c == '\u{2003}' || c == '\u{2004}' || c == '\u{2005}' || c == '\u{2006}'
        || c == '\u{2007}' || c == '\u{2008}' || c == '\u{2009}' || c == '\u{200A}'
        || c == '\u{2028}' || c == '\u{2029}' || c == '\u{202F}' || c == '\u{205F}'
        || c == '\u{3000}'
}

/// Removes leading and trailing whitespace.
pub fn trim_text(s: &str) -> (r: String)
    ensures
        r@ == trim_spec(s@),
{
    let len = s.unicode_len();
    let mut i: usize = 0;
    proof {
        assert(s@.skip(0) =~= s@);
    }
    while i < len && char_is_space(s.get_char(i))
        invariant
            0 <= i <= len,
            len == s@.len(),
            trim_start_spec(s@) == trim_start_spec(s@.skip(i as int)),
        decreases len - i,
    {
        proof {
            assert(s@.skip(i as int).skip(1) =~= s@.skip(i as int + 1));
        }
        i = i + 1;
    }
    proof {
        if i < len {
            assert(trim_start_spec(s@.skip(i as int)) == s@.skip(i as int));
        } else {
            assert(s@.skip(i as int) =~= Seq::<char>::empty());
        }
    }
    let mut j: usize = len;
    while j > i && char_is_space(s.get_char(j - 1))
        invariant
            i <= j <= len,
            len == s@.len(),
            trim_start_spec(s@) == s@.skip(i as int),
            trim_end_spec(s@.skip(i as int)) == trim_end_spec(s@.subrange(i as int, j as int)),
        decreases j,
    {
        proof {
            assert(s@.subrange(i as int, j as int).drop_last()
                =~= s@.subrange(i as int, j as int - 1));
        }
        j = j - 1;
    }
    proof {
        if j > i {
            assert(trim_end_spec(s@.subrange(i as int, j as int))
                == s@.subrange(i as int, j as int));
        } else {
            assert(s@.subrange(i as int, j as int) =~= Seq::<char>::empty());
        }
    }
    String::from_str(s.substring_char(i, j))
}

/// A trimmed text has no leading whitespace left.
proof fn lemma_trim_start_clean(s: Seq<char>)
    ensures
        trim_start_spec(s).len() > 0 ==> !is_space(trim_start_spec(s)[0]),
    decreases s.len(),
{
    if s.len() > 0 && is_space(s[0]) {
        lemma_trim_start_clean(s.skip(1));
    }
}

/// A trimmed text has no trailing whitespace left, and its first
/// character survives trimming from the end.
proof fn lemma_trim_end_clean(s: Seq<char>)
    ensures
        trim_end_spec(s).len() > 0 ==> !is_space(trim_end_spec(s).last()),
        s.len() > 0 && !is_space(s[0]) ==> trim_end_spec(s).len() > 0
            && trim_end_spec(s)[0] == s[0],
    decreases s.len(),
{
    if s.len() > 0 && is_space(s.last()) {
        lemma_trim_end_clean(s.drop_last());
        if s.len() > 1 {
            assert(s.drop_last()[0] == s[0]);
        }
    }
}

/// Trimming is idempotent.
pub proof fn lemma_trim_idempotent(s: Seq<char>)
    ensures
        trim_spec(trim_spec(s)) == trim_spec(s),
{
    let t = trim_spec(s);
    lemma_trim_start_clean(s);
    lemma_trim_end_clean(trim_start_spec(s));
    if t.len() > 0 {
        assert(!is_space(t[0]));
        assert(trim_start_spec(t) == t);
        assert(!is_space(t.last()));
        assert(trim_end_spec(t) == t);
    } else {
        assert(trim_start_spec(t) == t);
        assert(trim_end_spec(t) == t);
    }
}

proof fn lemma_clean_push(ts: Seq<Seq<char>>, t: Seq<char>)
    ensures
        trim_spec(t).len() > 0 ==> clean_tags_spec(ts.push(t))
            == clean_tags_spec(ts).push(trim_spec(t)),
        trim_spec(t).len() == 0 ==> clean_tags_spec(ts.push(t)) == clean_tags_spec(ts),
{
    reveal(Seq::filter);
    let f = |u: Seq<char>| trim_spec(u);
    let p = |u: Seq<char>| u.len() > 0;
    let m = ts.push(t).map_values(f);
    assert(m.drop_last() =~= ts.map_values(f));
    assert(m.last() == trim_spec(t));
    assert(m =~= m.drop_last().push(m.last()));
}

proof fn lemma_split_nonempty(s: Seq<char>)
    ensures
        split_commas(s).len() >= 1,
{
    if s.len() == 0 {
    } else if s[0] == ',' {
    } else {
    }
}

/// Splits storage-form text on commas, trims each piece and drops the
/// empty ones.
pub fn parse_tags(value: &str) -> (r: Vec<String>)
    ensures
        r.deep_view() == clean_tags_spec(split_commas(value@)),
{
    let len = value.unicode_len();
    let mut out: Vec<String> = Vec::new();
    let ghost mut done: Seq<Seq<char>> = Seq::empty();
    let mut start: usize = 0;
    let mut i: usize = 0;
    proof {
        assert(s_skip(value@, 0) =~= value@);
        assert(done + seq![value@.subrange(0, 0) + split_commas(value@)[0]]
            + split_commas(value@).skip(1) =~= split_commas(value@)) by {
            lemma_split_nonempty(value@);
            assert(value@.subrange(0, 0) + split_commas(value@)[0] =~= split_commas(value@)[0]);
        }
        assert(out.deep_view() =~= clean_tags_spec(done)) by {
            reveal(Seq::filter);
            assert(done.map_values(|t: Seq<char>| trim_spec(t)) =~= Seq::<Seq<char>>::empty());
        }
    }
    while i < len
        invariant
            0 <= start <= i <= len,
            len == value@.len(),
            split_commas(value@) == done
                + seq![value@.subrange(start as int, i as int)
                    + split_commas(value@.skip(i as int))[0]]
                + split_commas(value@.skip(i as int)).skip(1),
            out.deep_view() == clean_tags_spec(done),
        decreases len - i,
    {
        let c = value.get_char(i);
        proof {
            lemma_split_nonempty(value@.skip(i as int + 1));
            assert(value@.skip(i as int).skip(1) =~= value@.skip(i as int + 1));
        }
        if c == ',' {
            let piece = value.substring_char(start, i);
            let t = trim_text(piece);
            proof {
                lemma_clean_push(done, value@.subrange(start as int, i as int));
            }
            if !t.as_str().is_empty() {
                out.push(t);
                proof {
                    assert(out.deep_view() =~= clean_tags_spec(
                        done.push(value@.subrange(start as int, i as int))));
                }
            }
            proof {
                let rest1 = split_commas(value@.skip(i as int + 1));
                assert(split_commas(value@.skip(i as int))
                    == seq![Seq::<char>::empty()] + rest1);
                assert(value@.subrange(start as int, i as int) + Seq::<char>::empty()
                    =~= value@.subrange(start as int, i as int));
                done = done.push(value@.subrange(start as int, i as int));
                assert(split_commas(value@) =~= done
                    + seq![value@.subrange(i as int + 1, i as int + 1) + rest1[0]]
                    + rest1.skip(1)) by {
                    lemma_split_nonempty(value@.skip(i as int + 1));
                    assert(value@.subrange(i as int + 1, i as int + 1) + rest1[0] =~= rest1[0]);
                    assert((seq![Seq::<char>::empty()] + rest1).skip(1) =~= rest1);
                }
            }
            start = i + 1;
        } else {
            proof {
                let rest1 = split_commas(value@.skip(i as int + 1));
                assert(split_commas(value@.skip(i as int))
                    == seq![seq![value@[i as int]] + rest1[0]] + rest1.skip(1));
                assert(value@.subrange(start as int, i as int)
                    + (seq![value@[i as int]] + rest1[0])
                    =~= value@.subrange(start as int, i as int + 1) + rest1[0]);
            }
        }
        i = i + 1;
    }
    let piece = value.substring_char(start, len);
    let t = trim_text(piece);
    proof {
        assert(value@.skip(len as int) =~= Seq::<char>::empty());
        assert(split_commas(value@.skip(len as int)) == seq![Seq::<char>::empty()]);
        assert(value@.subrange(start as int, len as int) + Seq::<char>::empty()
            =~= value@.subrange(start as int, len as int));
        assert(split_commas(value@) =~= done.push(value@.subrange(start as int, len as int)));
        lemma_clean_push(done, value@.subrange(start as int, len as int));
    }
    if !t.as_str().is_empty() {
        out.push(t);
        proof {
            assert(out.deep_view() =~= clean_tags_spec(
                done.push(value@.subrange(start as int, len as int))));
        }
    }
    out
}

spec fn s_skip(s: Seq<char>, i: int) -> Seq<char> {
    s.skip(i)
}

proof fn lemma_join_push(ts: Seq<Seq<char>>, t: Seq<char>)
    ensures
        ts.len() == 0 ==> join_commas(ts.push(t)) == t,
        ts.len() > 0 ==> join_commas(ts.push(t)) == join_commas(ts) + seq![','] + t,
    decreases ts.len(),
{
    if ts.len() == 0 {
        assert(ts.push(t) =~= seq![t]);
    } else if ts.len() == 1 {
        assert(ts.push(t).skip(1) =~= seq![t]);
        assert(join_commas(ts.push(t).skip(1)) == t);
    } else {
        lemma_join_push(ts.skip(1), t);
        assert(ts.push(t).skip(1) =~= ts.skip(1).push(t));
    }
}

/// Renders a tag list in storage form: trimmed, empties dropped,
/// joined with commas.
pub fn normalize_tags(tags: &Vec<String>) -> (r: String)
    ensures
        r@ == join_commas(clean_tags_spec(tags.deep_view())),
{
    proof {
        reveal_strlit(",");
        assert(","@ =~= seq![',']);
    }
    let mut out = String::new();
    let mut first = true;
    let ghost mut done: Seq<Seq<char>> = Seq::empty();
    let mut i: usize = 0;
    proof {
        assert(clean_tags_spec(done) =~= Seq::<Seq<char>>::empty()) by {
            reveal(Seq::filter);
            assert(done.map_values(|t: Seq<char>| trim_spec(t)) =~= Seq::<Seq<char>>::empty());
        }
    }
    while i < tags.len()
        invariant
            0 <= i <= tags.len(),
            done =~= tags.deep_view().take(i as int),
            out@ == join_commas(clean_tags_spec(done)),
            first <==> clean_tags_spec(done).len() == 0,
        decreases tags.len() - i,
    {
        let t = trim_text(tags[i].as_str());
        let ghost p = tags.deep_view()[i as int];
        proof {
            reveal_strlit(",");
            assert(","@ =~= seq![',']);
            assert(p == tags@[i as int]@);
            lemma_clean_push(done, p);
            lemma_join_push(clean_tags_spec(done), trim_spec(p));
        }
        if !t.as_str().is_empty() {
            if !first {
                out.append(",");
            }
            out.append(t.as_str());
            first = false;
            proof {
                assert(out@ =~= join_commas(clean_tags_spec(done.push(p))));
            }
        }
        proof {
            done = done.push(p);
            assert(done =~= tags.deep_view().take(i as int + 1));
        }
        i = i + 1;
    }
    proof {
        assert(tags.deep_view().take(tags.len() as int) =~= tags.deep_view());
    }
    out
}

fn seen_contains(seen: &Vec<String>, key: &String) -> (b: bool)
    ensures
        b == seen.deep_view().contains(key@),
{
    let mut i: usize = 0;
    while i < seen.len()
        invariant
            0 <= i <= seen.len(),
            forall|k: int| 0 <= k < i ==> seen.deep_view()[k] != key@,
        decreases seen.len() - i,
    {
        if seen[i].eq(key) {
            proof {
                assert(seen.deep_view()[i as int] == key@);
            }
            return true;
        }
        i = i + 1;
    }
    proof {
        assert forall|k: int| 0 <= k < seen.deep_view().len()
            implies seen.deep_view()[k] != key@ by {}
    }
    false
}

pub proof fn lemma_contains_push<A>(s: Seq<A>, x: A, k: A)
    ensures
        s.push(x).contains(k) <==> s.contains(k) || k == x,
{
    if s.push(x).contains(k) {
        let w = choose|w: int| 0 <= w < s.push(x).len() && s.push(x)[w] == k;
        if w < s.len() {
            assert(s[w] == k);
        }
    }
    if s.contains(k) {
        let w = choose|w: int| 0 <= w < s.len() && s[w] == k;
        assert(s.push(x)[w] == k);
    }
    if k == x {
        assert(s.push(x)[s.len() as int] == k);
    }
}

/// Normalizes a free-text tag list: trims, drops empties, and keeps the
/// first occurrence of each case-insensitive key, in input order.
pub fn normalize_task_tags(tags: &Vec<String>) -> (r: Vec<String>)
    ensures
        r.deep_view() == normalize_task_tags_spec(tags.deep_view()),
{
    let mut out: Vec<String> = Vec::new();
    let mut seen: Vec<String> = Vec::new();
    let ghost mut seen_set: Set<Seq<char>> = Set::empty();
    let mut i: usize = 0;
    proof {
        assert(tags.deep_view().skip(0) =~= tags.deep_view());
        assert(out.deep_view() + dedup_tags(tags.deep_view(), seen_set)
            =~= dedup_tags(tags.deep_view(), seen_set));
        assert forall|k: Seq<char>| seen_set.contains(k) == seen.deep_view().contains(k) by {
            assert(!seen_set.contains(k));
            if seen.deep_view().contains(k) {
                let w = choose|w: int| 0 <= w < seen.deep_view().len()
                    && seen.deep_view()[w] == k;
            }
        }
    }
    while i < tags.len()
        invariant
            0 <= i <= tags.len(),
            forall|k: Seq<char>| seen_set.contains(k) == seen.deep_view().contains(k),
            normalize_task_tags_spec(tags.deep_view()) == out.deep_view()
                + dedup_tags(tags.deep_view().skip(i as int), seen_set),
        decreases tags.len() - i,
    {
        let ghost rest = tags.deep_view().skip(i as int);
        let ghost old_out = out.deep_view();
        let ghost old_seen = seen.deep_view();
        proof {
            assert(rest[0] == tags.deep_view()[i as int]);
            assert(tags.deep_view()[i as int] == tags@[i as int]@);
            assert(rest.skip(1) =~= tags.deep_view().skip(i as int + 1));
        }
        let t = trim_text(tags[i].as_str());
        if !t.as_str().is_empty() {
            let key = lowercase_text(t.as_str());
            if !seen_contains(&seen, &key) {
                out.push(t);
                seen.push(key);
                proof {
                    assert(out.deep_view() =~= old_out.push(trim_spec(rest[0])));
                    assert(seen.deep_view() =~= old_seen.push(key@));
                    assert forall|k: Seq<char>|
                        seen_set.insert(lower_of(trim_spec(rest[0]))).contains(k)
                            == seen.deep_view().contains(k) by {
                        lemma_contains_push(old_seen, key@, k);
                    }
                    seen_set = seen_set.insert(lower_of(trim_spec(rest[0])));
                    assert(old_out.push(trim_spec(rest[0]))
                        + dedup_tags(rest.skip(1), seen_set)
                        =~= old_out + (seq![trim_spec(rest[0])]
                            + dedup_tags(rest.skip(1), seen_set)));
                }
            }
        }
        i = i + 1;
    }
    proof {
        assert(tags.deep_view().skip(tags.len() as int) =~= Seq::<Seq<char>>::empty());
        assert(out.deep_view() + dedup_tags(Seq::empty(), seen_set) =~= out.deep_view());
    }
    out
}

/// Every tag kept by the normalizer is trimmed, nonempty, carries a
/// fresh lowercase key, and no two kept tags share a key.
pub proof fn lemma_dedup_wf(ts: Seq<Seq<char>>, seen: Set<Seq<char>>)
    ensures
        forall|i: int| 0 <= i < dedup_tags(ts, seen).len()
            ==> trim_spec(#[trigger] dedup_tags(ts, seen)[i]) == dedup_tags(ts, seen)[i]
                && dedup_tags(ts, seen)[i].len() > 0
                && !seen.contains(lower_of(dedup_tags(ts, seen)[i])),
        forall|i: int, j: int| 0 <= i < j < dedup_tags(ts, seen).len()
            ==> lower_of(#[trigger] dedup_tags(ts, seen)[i])
                != lower_of(#[trigger] dedup_tags(ts, seen)[j]),
    decreases ts.len(),
{
    if ts.len() == 0 {
    } else {
        let t = trim_spec(ts[0]);
        if t.len() == 0 || seen.contains(lower_of(t)) {
            lemma_dedup_wf(ts.skip(1), seen);
            assert forall|i: int| 0 <= i < dedup_tags(ts, seen).len() implies
                trim_spec(#[trigger] dedup_tags(ts, seen)[i]) == dedup_tags(ts, seen)[i]
                    && dedup_tags(ts, seen)[i].len() > 0
                    && !seen.contains(lower_of(dedup_tags(ts, seen)[i])) by {
                assert(dedup_tags(ts, seen)[i] == dedup_tags(ts.skip(1), seen)[i]);
            }
            assert forall|i: int, j: int| 0 <= i < j < dedup_tags(ts, seen).len() implies
                lower_of(#[trigger] dedup_tags(ts, seen)[i])
                    != lower_of(#[trigger] dedup_tags(ts, seen)[j]) by {
                assert(dedup_tags(ts, seen)[i] == dedup_tags(ts.skip(1), seen)[i]);
                assert(dedup_tags(ts, seen)[j] == dedup_tags(ts.skip(1), seen)[j]);
            }
        } else {
            lemma_dedup_wf(ts.skip(1), seen.insert(lower_of(t)));
            lemma_trim_idempotent(ts[0]);
            let rest = dedup_tags(ts.skip(1), seen.insert(lower_of(t)));
            assert(dedup_tags(ts, seen) == seq![t] + rest);
            assert forall|i: int| 0 <= i < dedup_tags(ts, seen).len() implies
                trim_spec(#[trigger] dedup_tags(ts, seen)[i]) == dedup_tags(ts, seen)[i]
                    && dedup_tags(ts, seen)[i].len() > 0
                    && !seen.contains(lower_of(dedup_tags(ts, seen)[i])) by {
                if i == 0 {
                    assert(dedup_tags(ts, seen)[0] == t);
                } else {
                    assert(dedup_tags(ts, seen)[i] == rest[i - 1]);
                    assert(!seen.insert(lower_of(t)).contains(lower_of(rest[i - 1])));
                }
            }
            assert forall|i: int, j: int| 0 <= i < j < dedup_tags(ts, seen).len() implies
                lower_of(#[trigger] dedup_tags(ts, seen)[i])
                    != lower_of(#[trigger] dedup_tags(ts, seen)[j]) by {
                assert(dedup_tags(ts, seen)[j] == rest[j - 1]);
                assert(!seen.insert(lower_of(t)).contains(lower_of(rest[j - 1])));
                if i > 0 {
                    assert(dedup_tags(ts, seen)[i] == rest[i - 1]);
                } else {
                    assert(dedup_tags(ts, seen)[0] == t);
                }
            }
        }
    }
}

/// On a list that is already normalized relative to `seen`, the
/// normalizer changes nothing.
proof fn lemma_dedup_fixed(s: Seq<Seq<char>>, seen: Set<Seq<char>>)
    requires
        forall|i: int| 0 <= i < s.len() ==> trim_spec(#[trigger] s[i]) == s[i]
            && s[i].len() > 0 && !seen.contains(lower_of(s[i])),
        forall|i: int, j: int| 0 <= i < j < s.len()
            ==> lower_of(#[trigger] s[i]) != lower_of(#[trigger] s[j]),
    ensures
        dedup_tags(s, seen) == s,
    decreases s.len(),
{
    if s.len() > 0 {
        let t = trim_spec(s[0]);
        let seen1 = seen.insert(lower_of(s[0]));
        assert forall|i: int| 0 <= i < s.skip(1).len() implies
            trim_spec(#[trigger] s.skip(1)[i]) == s.skip(1)[i] && s.skip(1)[i].len() > 0
                && !seen1.contains(lower_of(s.skip(1)[i])) by {
            assert(s.skip(1)[i] == s[i + 1]);
            assert(lower_of(s[0]) != lower_of(s[i + 1]));
        }
        assert forall|i: int, j: int| 0 <= i < j < s.skip(1).len() implies
            lower_of(#[trigger] s.skip(1)[i]) != lower_of(#[trigger] s.skip(1)[j]) by {
            assert(s.skip(1)[i] == s[i + 1]);
            assert(s.skip(1)[j] == s[j + 1]);
        }
        lemma_dedup_fixed(s.skip(1), seen1);
        assert(dedup_tags(s, seen) =~= s) by {
            assert(seq![s[0]] + s.skip(1) =~= s);
        }
    }
}

/// Normalizing a tag list twice gives the same list as normalizing it
/// once.
pub proof fn lemma_normalize_task_tags_idempotent(ts: Seq<Seq<char>>)
    ensures
        normalize_task_tags_spec(normalize_task_tags_spec(ts)) == normalize_task_tags_spec(ts),
{
    lemma_dedup_wf(ts, Set::empty());
    lemma_dedup_fixed(dedup_tags(ts, Set::empty()), Set::empty());
}

pub open spec fn comma_free(t: Seq<char>) -> bool {
    forall|k: int| 0 <= k < t.len() ==> t[k] != ','
}

/// A tag as it comes out of storage: trimmed, nonempty, holding no comma.
pub open spec fn canonical_tag(t: Seq<char>) -> bool {
    t.len() > 0 && trim_spec(t) == t && comma_free(t)
}

/// What trimming from the start leaves is a suffix of the text.
proof fn lemma_trim_start_is_suffix(s: Seq<char>)
    ensures
        exists|k: int| 0 <= k <= s.len() && trim_start_spec(s) == s.skip(k),
    decreases s.len(),
{
    if s.len() == 0 || !is_space(s[0]) {
        assert(s.skip(0) =~= s);
        assert(trim_start_spec(s) == s.skip(0));
    } else {
        lemma_trim_start_is_suffix(s.skip(1));
        let k = choose|k: int| 0 <= k <= s.skip(1).len() && trim_start_spec(s.skip(1))
            == s.skip(1).skip(k);
        assert(s.skip(1).skip(k) =~= s.skip(k + 1));
        assert(trim_start_spec(s) == s.skip(k + 1));
    }
}

/// What trimming from the end leaves is a prefix of the text.
proof fn lemma_trim_end_is_prefix(s: Seq<char>)
    ensures
        exists|k: int| 0 <= k <= s.len() && trim_end_spec(s) == s.take(k),
    decreases s.len(),
{
    if s.len() == 0 || !is_space(s.last()) {
        assert(s.take(s.len() as int) =~= s);
        assert(trim_end_spec(s) == s.take(s.len() as int));
    } else {
        lemma_trim_end_is_prefix(s.drop_last());
        let k = choose|k: int| 0 <= k <= s.drop_last().len() && trim_end_spec(s.drop_last())
            == s.drop_last().take(k);
        assert(s.drop_last().take(k) =~= s.take(k));
        assert(trim_end_spec(s) == s.take(k));
    }
}

/// Trimming comma-free text leaves it comma-free.
pub proof fn lemma_trim_comma_free(s: Seq<char>)
    requires
        comma_free(s),
    ensures
        comma_free(trim_spec(s)),
{
    lemma_trim_start_is_suffix(s);
    let k1 = choose|k: int| 0 <= k <= s.len() && trim_start_spec(s) == s.skip(k);
    assert(comma_free(s.skip(k1)));
    lemma_trim_end_is_prefix(s.skip(k1));
    let k2 = choose|k: int| 0 <= k <= s.skip(k1).len() && trim_end_spec(s.skip(k1))
        == s.skip(k1).take(k);
    assert(comma_free(s.skip(k1).take(k2)));
}

/// Every piece the splitter produces is comma-free.
pub proof fn lemma_split_pieces_comma_free(s: Seq<char>)
    ensures
        forall|i: int| 0 <= i < split_commas(s).len() ==> comma_free(
            #[trigger] split_commas(s)[i]),
    decreases s.len(),
{
    if s.len() == 0 {
        assert(comma_free(split_commas(s)[0]));
    } else if s[0] == ',' {
        lemma_split_pieces_comma_free(s.skip(1));
        assert forall|i: int| 0 <= i < split_commas(s).len() implies comma_free(
            #[trigger] split_commas(s)[i]) by {
            if i > 0 {
                assert(split_commas(s)[i] == split_commas(s.skip(1))[i - 1]);
            }
        }
    } else {
        lemma_split_pieces_comma_free(s.skip(1));
        let rest = split_commas(s.skip(1));
        assert(comma_free(rest[0]));
        assert(comma_free(seq![s[0]] + rest[0]));
        assert forall|i: int| 0 <= i < split_commas(s).len() implies comma_free(
            #[trigger] split_commas(s)[i]) by {
            if i > 0 {
                assert(split_commas(s)[i] == rest[i]);
            }
        }
    }
}

/// Splitting comma-free text yields that one piece.
proof fn lemma_split_of_comma_free(s: Seq<char>)
    requires
        comma_free(s),
    ensures
        split_commas(s) == seq![s],
    decreases s.len(),
{
    if s.len() == 0 {
        assert(split_commas(s) =~~= seq![s]);
    } else {
        assert(comma_free(s.skip(1)));
        lemma_split_of_comma_free(s.skip(1));
        assert(seq![s[0]] + s.skip(1) =~= s);
        assert(split_commas(s.skip(1)).skip(1) =~= Seq::<Seq<char>>::empty());
        assert(split_commas(s) =~~= seq![s]);
    }
}

/// Splitting text that starts with a comma-free piece, a comma, and a
/// remainder peels the piece off.
proof fn lemma_split_concat(x: Seq<char>, rest: Seq<char>)
    requires
        comma_free(x),
    ensures
        split_commas(x + seq![','] + rest) == seq![x] + split_commas(rest),
    decreases x.len(),
{
    let s = x + seq![','] + rest;
    assert(s.len() == x.len() + 1 + rest.len());
    if x.len() == 0 {
        assert(s[0] == ',');
        assert(s.skip(1) =~= rest);
        assert(x =~= Seq::<char>::empty());
        assert(split_commas(s) =~~= seq![x] + split_commas(rest));
    } else {
        assert(comma_free(x.skip(1)));
        lemma_split_concat(x.skip(1), rest);
        assert(s[0] == x[0]);
        assert(s[0] != ',');
        assert(s.skip(1) =~= x.skip(1) + seq![','] + rest);
        let inner = split_commas(s.skip(1));
        assert(inner == seq![x.skip(1)] + split_commas(rest));
        assert(inner[0] == x.skip(1));
        assert(seq![s[0]] + inner[0] =~= x);
        assert(inner.skip(1) =~= split_commas(rest));
        assert(split_commas(s) == seq![seq![s[0]] + inner[0]] + inner.skip(1));
        assert(split_commas(s) =~~= seq![x] + split_commas(rest));
    }
}

/// A filter that keeps no element leaves nothing.
proof fn lemma_filter_none(ts: Seq<Seq<char>>, p: spec_fn(Seq<char>) -> bool)
    requires
        forall|i: int| 0 <= i < ts.len() ==> !p(#[trigger] ts[i]),
    ensures
        ts.filter(p) == Seq::<Seq<char>>::empty(),
    decreases ts.len(),
{
    reveal(Seq::filter);
    if ts.len() > 0 {
        assert forall|i: int| 0 <= i < ts.drop_last().len() implies !p(
            #[trigger] ts.drop_last()[i]) by {
            assert(ts.drop_last()[i] == ts[i]);
        }
        lemma_filter_none(ts.drop_last(), p);
        assert(!p(ts.last()));
    } else {
        assert(ts.filter(p) =~= Seq::<Seq<char>>::empty());
    }
}

/// A filter that keeps every element changes nothing.
proof fn lemma_filter_all(ts: Seq<Seq<char>>, p: spec_fn(Seq<char>) -> bool)
    requires
        forall|i: int| 0 <= i < ts.len() ==> p(#[trigger] ts[i]),
    ensures
        ts.filter(p) == ts,
    decreases ts.len(),
{
    reveal(Seq::filter);
    if ts.len() > 0 {
        assert(ts.drop_last()[ts.len() - 2] == ts[ts.len() - 2] || ts.len() == 1);
        assert forall|i: int| 0 <= i < ts.drop_last().len() implies p(
            #[trigger] ts.drop_last()[i]) by {
            assert(ts.drop_last()[i] == ts[i]);
        }
        lemma_filter_all(ts.drop_last(), p);
        assert(p(ts.last()));
        assert(ts.filter(p) =~= ts);
    }
}

/// Cleaning a list of trimmed, nonempty tags changes nothing.
pub proof fn lemma_clean_identity(ts: Seq<Seq<char>>)
    requires
        forall|i: int| 0 <= i < ts.len() ==> (#[trigger] ts[i]).len() > 0 && trim_spec(ts[i])
            == ts[i],
    ensures
        clean_tags_spec(ts) == ts,
{
    assert(ts.map_values(|t: Seq<char>| trim_spec(t)) =~= ts);
    lemma_filter_all(ts, |t: Seq<char>| t.len() > 0);
}

/// A canonical tag list survives the trip through its storage form:
/// joining on commas and reading the text back gives the same list.
pub proof fn lemma_tags_round_trip(ts: Seq<Seq<char>>)
    requires
        forall|i: int| 0 <= i < ts.len() ==> canonical_tag(#[trigger] ts[i]),
    ensures
        clean_tags_spec(split_commas(join_commas(ts))) == ts,
    decreases ts.len(),
{
    if ts.len() == 0 {
        assert(join_commas(ts).len() == 0);
        assert(split_commas(join_commas(ts)) == seq![Seq::<char>::empty()]);
        reveal(Seq::filter);
        let f = |t: Seq<char>| trim_spec(t);
        let p = |t: Seq<char>| t.len() > 0;
        let m = seq![Seq::<char>::empty()].map_values(f);
        assert(m =~~= seq![Seq::<char>::empty()]);
        assert forall|i: int| 0 <= i < m.len() implies !p(#[trigger] m[i]) by {}
        lemma_filter_none(m, p);
        assert(clean_tags_spec(split_commas(join_commas(ts))) =~= ts);
    } else if ts.len() == 1 {
        assert(join_commas(ts) == ts[0]);
        lemma_split_of_comma_free(ts[0]);
        lemma_clean_identity(seq![ts[0]]);
        assert(seq![ts[0]] =~= ts);
    } else {
        assert(join_commas(ts) == ts[0] + seq![','] + join_commas(ts.skip(1)));
        assert forall|i: int| 0 <= i < ts.skip(1).len() implies canonical_tag(
            #[trigger] ts.skip(1)[i]) by {
            assert(ts.skip(1)[i] == ts[i + 1]);
        }
        lemma_tags_round_trip(ts.skip(1));
        lemma_clean_split_concat(ts[0], ts.skip(1));
        assert(seq![ts[0]] + ts.skip(1) =~= ts);
    }
}

/// Cleaning distributes over putting one canonical piece in front.
proof fn lemma_clean_split_concat(x: Seq<char>, rest: Seq<Seq<char>>)
    requires
        canonical_tag(x),
        forall|i: int| 0 <= i < rest.len() ==> canonical_tag(#[trigger] rest[i]),
        clean_tags_spec(split_commas(join_commas(rest))) == rest,
    ensures
        clean_tags_spec(split_commas(join_commas(seq![x] + rest))) == seq![x] + rest,
    decreases rest.len(),
{
    let ts = seq![x] + rest;
    assert(ts[0] == x);
    assert(ts.skip(1) =~= rest);
    if rest.len() == 0 {
        assert(ts.len() == 1);
        assert(join_commas(ts) == x);
        lemma_split_of_comma_free(x);
        lemma_clean_identity(seq![x]);
    } else {
        assert(ts.len() >= 2);
        assert(join_commas(ts) == x + seq![','] + join_commas(rest));
        lemma_split_concat(x, join_commas(rest));
        let sp = split_commas(join_commas(rest));
        let whole = seq![x] + sp;
        assert(split_commas(join_commas(ts)) == whole);
        // cleaning maps and filters element-wise; peel the head off
        reveal(Seq::filter);
        lemma_clean_cons(x, sp);
    }
}

/// Cleaning `[x] + ps` equals `[x]` plus cleaning `ps`, when `x` is a
/// canonical tag.
proof fn lemma_clean_cons(x: Seq<char>, ps: Seq<Seq<char>>)
    requires
        canonical_tag(x),
    ensures
        clean_tags_spec(seq![x] + ps) == seq![x] + clean_tags_spec(ps),
    decreases ps.len(),
{
    reveal(Seq::filter);
    let f = |t: Seq<char>| trim_spec(t);
    let p = |t: Seq<char>| t.len() > 0;
    if ps.len() == 0 {
        assert(seq![x] + ps =~= seq![x]);
        assert(seq![x].map_values(f) =~= seq![trim_spec(x)]);
        assert(seq![trim_spec(x)] =~= seq![x]);
        assert(seq![x].drop_last() =~= Seq::<Seq<char>>::empty());
        assert(Seq::<Seq<char>>::empty().map_values(f) =~= Seq::<Seq<char>>::empty());
        assert(clean_tags_spec(seq![x]) =~= seq![x] + clean_tags_spec(ps));
    } else {
        let whole = seq![x] + ps;
        assert(whole.drop_last() =~= seq![x] + ps.drop_last());
        lemma_clean_cons(x, ps.drop_last());
        let m = whole.map_values(f);
        assert(m.drop_last() =~= whole.drop_last().map_values(f));
        assert(m.last() == trim_spec(ps.last()));
        assert(m =~= m.drop_last().push(m.last()));
        let mr = ps.map_values(f);
        assert(mr.drop_last() =~= ps.drop_last().map_values(f));
        assert(mr =~= mr.drop_last().push(trim_spec(ps.last())));
        if trim_spec(ps.last()).len() > 0 {
            assert(clean_tags_spec(whole) =~= clean_tags_spec(whole.drop_last()).push(
                trim_spec(ps.last())));
            assert(clean_tags_spec(ps) =~= clean_tags_spec(ps.drop_last()).push(
                trim_spec(ps.last())));
            assert(clean_tags_spec(whole) =~= seq![x] + clean_tags_spec(ps));
        } else {
            assert(clean_tags_spec(whole) =~= clean_tags_spec(whole.drop_last()));
            assert(clean_tags_spec(ps) =~= clean_tags_spec(ps.drop_last()));
        }
    }
}

/// Every tag read back from storage form is canonical: trimmed,
/// nonempty, and comma-free.
pub proof fn lemma_parsed_tags_canonical(s: Seq<char>)
    ensures
        forall|i: int| 0 <= i < clean_tags_spec(split_commas(s)).len() ==> canonical_tag(
            #[trigger] clean_tags_spec(split_commas(s))[i]),
{
    let ps = split_commas(s);
    let cleaned = clean_tags_spec(s_identity(ps));
    lemma_split_pieces_comma_free(s);
    broadcast use vstd::seq_lib::group_filter_ensures;

    let f = |t: Seq<char>| trim_spec(t);
    let p = |t: Seq<char>| t.len() > 0;
    let m = ps.map_values(f);
    assert forall|i: int| 0 <= i < m.filter(p).len() implies canonical_tag(
        #[trigger] m.filter(p)[i]) by {
        m.lemma_filter_pred(p, i);
        m.lemma_filter_len(p);
        let t = m.filter(p)[i];
        assert(m.filter(p).contains(t));
        let w = choose|w: int| 0 <= w < m.len() && m[w] == t;
        lemma_filter_elem_witness(m, p, i);
        let w2 = choose|w2: int| 0 <= w2 < m.len() && m[w2] == m.filter(p)[i];
        assert(m[w2] == trim_spec(ps[w2]));
        lemma_trim_comma_free(ps[w2]);
        lemma_trim_idempotent(ps[w2]);
    }
}

spec fn s_identity(ps: Seq<Seq<char>>) -> Seq<Seq<char>> {
    ps
}

/// Every element of a filtered sequence is an element of the original.
proof fn lemma_filter_elem_witness(m: Seq<Seq<char>>, p: spec_fn(Seq<char>) -> bool, i: int)
    requires
        0 <= i < m.filter(p).len(),
    ensures
        exists|w: int| 0 <= w < m.len() && m[w] == m.filter(p)[i],
    decreases m.len(),
{
    reveal(Seq::filter);
    if m.len() > 0 {
        if p(m.last()) && i == m.filter(p).len() - 1 {
            assert(m[m.len() - 1] == m.filter(p)[i]);
        } else {
            lemma_filter_elem_witness(m.drop_last(), p, i);
            let w = choose|w: int| 0 <= w < m.drop_last().len() && m.drop_last()[w]
                == m.drop_last().filter(p)[i];
            assert(m[w] == m.filter(p)[i]);
        }
    }
}

} // verus!
