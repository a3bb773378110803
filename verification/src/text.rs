//! Character-level text handling shared by the IRC parser and the moderation filter.
//!
//! Text is handled as sequences of `char`; the views of `String` and `&str` are
//! `Seq<char>`, so every function here is specified over those sequences.
use vstd::prelude::*;

verus! {

// ---------------------------------------------------------------------------
// What std decides about characters and case
// ---------------------------------------------------------------------------

/// Whether `char::is_whitespace` holds of `c`: the characters with the Unicode
/// `White_Space` property (`PropList.txt`), which are these twenty-five.
pub open spec fn char_is_whitespace(c: char) -> bool {
    let u = c as u32;
    ||| 0x09 <= u <= 0x0D
    ||| u == 0x20
    ||| u == 0x85
    ||| u == 0xA0
    ||| u == 0x1680
    ||| 0x2000 <= u <= 0x200A
    ||| u == 0x2028
    ||| u == 0x2029
    ||| u == 0x202F
    ||| u == 0x205F
    ||| u == 0x3000
}

/// Whether `c` is an ASCII character.
pub open spec fn is_ascii_char(c: char) -> bool {
    (c as u32) < 0x80
}

/// Whether every character of `s` is ASCII.
pub open spec fn is_ascii_text(s: Seq<char>) -> bool {
    forall|i: int| 0 <= i < s.len() ==> is_ascii_char(#[trigger] s[i])
}

/// Whether `c` is an ASCII letter or digit.
pub open spec fn is_ascii_alphanumeric(c: char) -> bool {
    ('A' <= c && c <= 'Z') || ('a' <= c && c <= 'z') || ('0' <= c && c <= '9')
}

/// Whether `c` is an ASCII capital letter.
pub open spec fn is_ascii_upper(c: char) -> bool {
    'A' <= c && c <= 'Z'
}

/// Whether `c` is an ASCII small letter.
pub open spec fn is_ascii_lower(c: char) -> bool {
    'a' <= c && c <= 'z'
}

/// The ASCII lower-case form of `c`: capitals become small letters, nothing else changes.
pub open spec fn ascii_lower_char(c: char) -> char {
    if is_ascii_upper(c) {
        ((c as u32) + 32) as char
    } else {
        c
    }
}

/// Whether `char::is_alphanumeric` holds of a non-ASCII character (Unicode `Alphabetic`
/// or `Numeric`).
pub uninterp spec fn non_ascii_alphanumeric(c: char) -> bool;

/// Whether `char::is_alphanumeric` holds of `c`: among ASCII characters exactly the
/// letters and digits; beyond ASCII, the Unicode `Alphabetic` or `Numeric` property.
pub open spec fn char_is_alphanumeric(c: char) -> bool {
    if is_ascii_char(c) {
        is_ascii_alphanumeric(c)
    } else {
        non_ascii_alphanumeric(c)
    }
}

/// `s` with each ASCII capital letter replaced by its small letter.
pub open spec fn fold_ascii_case(s: Seq<char>) -> Seq<char> {
    s.map_values(|c: char| ascii_lower_char(c))
}

/// What `str::to_lowercase` gives for a text with a non-ASCII character (Unicode full
/// lower-case mapping, with its rule for a final capital sigma).
pub uninterp spec fn unicode_lowercase(s: Seq<char>) -> Seq<char>;

/// What `str::to_lowercase` gives. Each character is mapped by its own lower-case
/// mapping, except that a capital sigma also looks at whether cased letters stand
/// around it; an ASCII letter is cased in either case, every ASCII capital maps to its
/// small letter, and no mapping yields an ASCII capital. So the result depends on the
/// text only up to the case of its ASCII letters, and holds no ASCII capital: on ASCII
/// text it is the text with its capitals made small; on other text it is the Unicode
/// mapping of that text, which holds no ASCII capital.
pub open spec fn lowercase(s: Seq<char>) -> Seq<char> {
    if is_ascii_text(s) {
        fold_ascii_case(s)
    } else {
        fold_ascii_case(unicode_lowercase(fold_ascii_case(s)))
    }
}

/// No ASCII character is made ASCII-capital by [`ascii_lower_char`], and a character is
/// ASCII exactly when its small form is.
pub proof fn lemma_ascii_lower_char(c: char)
    ensures
        !is_ascii_upper(ascii_lower_char(c)),
        ascii_lower_char(ascii_lower_char(c)) == ascii_lower_char(c),
        is_ascii_char(ascii_lower_char(c)) == is_ascii_char(c),
{
}

/// Folding the case of ASCII letters twice is folding it once, leaves no ASCII capital,
/// and keeps a text ASCII exactly when it was.
pub proof fn lemma_fold_ascii_case(s: Seq<char>)
    ensures
        fold_ascii_case(fold_ascii_case(s)) == fold_ascii_case(s),
        is_ascii_text(fold_ascii_case(s)) == is_ascii_text(s),
        forall|i: int| 0 <= i < s.len() ==> !is_ascii_upper(#[trigger] fold_ascii_case(s)[i]),
{
    let f = fold_ascii_case(s);
    assert forall|i: int| 0 <= i < s.len() implies f[i] == ascii_lower_char(s[i]) && !is_ascii_upper(
        #[trigger] f[i],
    ) && fold_ascii_case(f)[i] == f[i] && is_ascii_char(f[i]) == is_ascii_char(s[i]) by {
        lemma_ascii_lower_char(s[i]);
    }
    assert(fold_ascii_case(f) =~= f);
    if is_ascii_text(s) {
        assert forall|i: int| 0 <= i < f.len() implies is_ascii_char(#[trigger] f[i]) by {
            assert(is_ascii_char(s[i]));
        }
    }
    if is_ascii_text(f) {
        assert forall|i: int| 0 <= i < s.len() implies is_ascii_char(#[trigger] s[i]) by {
            assert(is_ascii_char(f[i]));
        }
    }
}

/// The lower-cased form of a text holds no ASCII capital letter.
pub proof fn lemma_lowercase_has_no_ascii_upper(s: Seq<char>)
    ensures
        forall|i: int| 0 <= i < lowercase(s).len() ==> !is_ascii_upper(#[trigger] lowercase(s)[i]),
{
    lemma_fold_ascii_case(s);
    lemma_fold_ascii_case(unicode_lowercase(fold_ascii_case(s)));
}

/// Lower-casing does not see the case of ASCII letters: two texts that agree once
/// their ASCII capitals are made small have the same lower-cased form.
pub proof fn law_lowercase_ignores_ascii_case(s: Seq<char>, t: Seq<char>)
    requires
        fold_ascii_case(s) == fold_ascii_case(t),
    ensures
        lowercase(s) == lowercase(t),
{
    lemma_fold_ascii_case(s);
    lemma_fold_ascii_case(t);
}

/// Whether `c` is whitespace in the sense of `char::is_whitespace`, whose documentation
/// defines it as the Unicode `White_Space` property: the characters listed in
/// [`char_is_whitespace`].
pub(crate) fn is_whitespace(c: char) -> (r: bool)
    ensures
        r == char_is_whitespace(c),
{
    let u = c as u32;
    (0x09 <= u && u <= 0x0D) || u == 0x20 || u == 0x85 || u == 0xA0 || u == 0x1680 || (0x2000
        <= u && u <= 0x200A) || u == 0x2028 || u == 0x2029 || u == 0x202F || u == 0x205F || u
        == 0x3000
}

/// Calls `char::is_alphanumeric` (Unicode `Alphabetic` or `Numeric`). The contract
/// claims that among ASCII characters exactly the letters and digits qualify, and
/// names the answer beyond ASCII without claiming which characters qualify there.
#[verifier::external_body]
pub(crate) fn is_alphanumeric(c: char) -> (r: bool)
    ensures
        r == char_is_alphanumeric(c),
        !is_ascii_char(c) ==> r == non_ascii_alphanumeric(c),
{
    c.is_alphanumeric()
}

/// Calls `str::to_lowercase`. The contract claims that on ASCII text only the capital
/// letters change, each to its small letter (no ASCII character has another lower-case
/// mapping, and the final-sigma rule concerns `Σ` alone). Beyond ASCII it names the
/// result as a function of the characters of `s`, and claims only two facts of it from
/// std's documentation (characters are mapped one by one, and a capital sigma looks only
/// at whether its neighbours are cased letters): it holds no ASCII capital, and it is
/// the same whatever the case of the ASCII letters of `s`. Which characters the Unicode
/// mapping gives is not claimed.
#[verifier::external_body]
pub(crate) fn to_lowercase(s: &str) -> (r: String)
    ensures
        r@ == lowercase(s@),
        !is_ascii_text(s@) ==> r@ == unicode_lowercase(s@),
{
    s.to_lowercase()
}

/// Calls `String::push`, which appends one character.
#[verifier::external_body]
pub(crate) fn push_char(s: &mut String, c: char)
    ensures
        final(s)@ == old(s)@.push(c),
{
    s.push(c)
}

// ---------------------------------------------------------------------------
// Conversions between strings and character vectors
// ---------------------------------------------------------------------------

/// The characters of `s`, in order.
pub fn chars_of(s: &str) -> (v: Vec<char>)
    ensures
        v@ == s@,
{
    let mut v: Vec<char> = Vec::new();
    for c in it: s.chars()
        invariant
            v@ == it.seq().take(it.index() as int),
    {
        v.push(c);
    }
    v
}

/// A string holding exactly the characters of `v`.
pub fn string_of(v: &Vec<char>) -> (s: String)
    ensures
        s@ == v@,
{
    let mut s = String::new();
    let mut i: usize = 0;
    while i < v.len()
        invariant
            i <= v.len(),
            s@ == v@.take(i as int),
        decreases v.len() - i,
    {
        push_char(&mut s, v[i]);
        i = i + 1;
        assert(s@ =~= v@.take(i as int));
    }
    assert(v@.take(v.len() as int) =~= v@);
    s
}

/// The characters of `v` from `from` (inclusive) to `to` (exclusive).
pub fn sub_chars(v: &Vec<char>, from: usize, to: usize) -> (r: Vec<char>)
    requires
        from <= to <= v.len(),
    ensures
        r@ == v@.subrange(from as int, to as int),
{
    let mut r: Vec<char> = Vec::new();
    let mut i: usize = from;
    while i < to
        invariant
            from <= i <= to <= v.len(),
            r@ == v@.subrange(from as int, i as int),
        decreases to - i,
    {
        r.push(v[i]);
        i = i + 1;
        assert(r@ =~= v@.subrange(from as int, i as int));
    }
    r
}

/// Whether `v` holds exactly the characters of `lit`.
pub fn eq_str(v: &Vec<char>, lit: &str) -> (r: bool)
    ensures
        r == (v@ == lit@),
{
    let n = lit.unicode_len();
    if n != v.len() {
        return false;
    }
    let mut i: usize = 0;
    while i < n
        invariant
            n == v.len(),
            n == lit@.len(),
            i <= n,
            forall|j: int| 0 <= j < i ==> v@[j] == lit@[j],
        decreases n - i,
    {
        if v[i] != lit.get_char(i) {
            return false;
        }
        i = i + 1;
    }
    assert(v@ =~= lit@);
    true
}

/// The views of a sequence of character vectors.
pub open spec fn seqs_view(v: Seq<Vec<char>>) -> Seq<Seq<char>> {
    v.map_values(|x: Vec<char>| x@)
}

// ---------------------------------------------------------------------------
// Splitting and joining
// ---------------------------------------------------------------------------

/// The pieces of `s` from position `i` on, when `cur` has been collected for the
/// piece in progress: `sep` ends a piece, and the end of `s` ends the last one.
pub open spec fn split_from(s: Seq<char>, sep: char, i: int, cur: Seq<char>) -> Seq<Seq<char>>
    decreases s.len() - i,
{
    if i >= s.len() {
        seq![cur]
    } else if s[i] == sep {
        seq![cur] + split_from(s, sep, i + 1, Seq::empty())
    } else {
        split_from(s, sep, i + 1, cur.push(s[i]))
    }
}

/// The pieces of `s` between occurrences of `sep`, as `str::split` with a one-character
/// pattern yields them: empty pieces included, and never fewer than one piece.
pub open spec fn split(s: Seq<char>, sep: char) -> Seq<Seq<char>> {
    split_from(s, sep, 0, Seq::empty())
}

/// While no separator comes, the piece in progress just grows.
pub proof fn lemma_split_from_first_piece(s: Seq<char>, sep: char, i: int, cur: Seq<char>, j: int)
    requires
        0 <= i <= j <= s.len(),
        forall|k: int| i <= k < j ==> s[k] != sep,
    ensures
        split_from(s, sep, i, cur)[0] == split_from(s, sep, j, cur + s.subrange(i, j))[0],
    decreases j - i,
{
    if i < j {
        lemma_split_from_first_piece(s, sep, i + 1, cur.push(s[i]), j);
        assert(cur.push(s[i]) + s.subrange(i + 1, j) =~= cur + s.subrange(i, j));
    } else {
        assert(cur + s.subrange(i, j) =~= cur);
    }
}

/// The first piece begins with the piece in progress.
pub proof fn lemma_split_from_first_piece_prefix(s: Seq<char>, sep: char, i: int, cur: Seq<char>)
    ensures
        split_from(s, sep, i, cur)[0].len() >= cur.len(),
        split_from(s, sep, i, cur)[0].subrange(0, cur.len() as int) == cur,
    decreases s.len() - i,
{
    if i >= s.len() {
        assert(split_from(s, sep, i, cur)[0].subrange(0, cur.len() as int) =~= cur);
    } else if s[i] == sep {
        assert(split_from(s, sep, i, cur)[0] == cur);
        assert(cur.subrange(0, cur.len() as int) =~= cur);
    } else {
        lemma_split_from_first_piece_prefix(s, sep, i + 1, cur.push(s[i]));
        let f = split_from(s, sep, i, cur)[0];
        assert(f.subrange(0, cur.len() as int) =~= f.subrange(0, cur.len() as int + 1).subrange(
            0,
            cur.len() as int,
        ));
        assert(cur.push(s[i]).subrange(0, cur.len() as int) =~= cur);
    }
}

/// Splitting from a position inside the second of two texts only sees that text.
pub proof fn lemma_split_from_shift(p: Seq<char>, q: Seq<char>, sep: char, j: int, cur: Seq<char>)
    requires
        0 <= j <= q.len(),
    ensures
        split_from(p + q, sep, p.len() + j, cur) == split_from(q, sep, j, cur),
    decreases q.len() - j,
{
    if j < q.len() {
        assert((p + q)[p.len() + j] == q[j]);
        if q[j] == sep {
            lemma_split_from_shift(p, q, sep, j + 1, Seq::empty());
        } else {
            lemma_split_from_shift(p, q, sep, j + 1, cur.push(q[j]));
        }
    }
}

/// A text without `sep` from position `i` on is one piece.
pub proof fn lemma_split_from_no_sep(x: Seq<char>, sep: char, i: int, cur: Seq<char>)
    requires
        0 <= i <= x.len(),
        forall|k: int| i <= k < x.len() ==> x[k] != sep,
    ensures
        split_from(x, sep, i, cur) == seq![cur + x.subrange(i, x.len() as int)],
    decreases x.len() - i,
{
    if i < x.len() {
        lemma_split_from_no_sep(x, sep, i + 1, cur.push(x[i]));
        assert(cur.push(x[i]) + x.subrange(i + 1, x.len() as int) =~= cur + x.subrange(
            i,
            x.len() as int,
        ));
    } else {
        assert(cur + x.subrange(i, x.len() as int) =~= cur);
    }
}

/// Splitting `x`, a separator, then `y` gives the pieces of `x` followed by those of `y`.
pub proof fn lemma_split_from_concat(x: Seq<char>, y: Seq<char>, sep: char, i: int, cur: Seq<char>)
    requires
        0 <= i <= x.len(),
    ensures
        split_from(x + seq![sep] + y, sep, i, cur) == split_from(x, sep, i, cur) + split(y, sep),
    decreases x.len() - i,
{
    let s = x + seq![sep] + y;
    if i == x.len() {
        assert(s[i] == sep);
        lemma_split_from_shift(x + seq![sep], y, sep, 0, Seq::empty());
        assert((x + seq![sep]).len() + 0 == i + 1);
        assert(s == (x + seq![sep]) + y);
    } else {
        assert(s[i] == x[i]);
        if x[i] == sep {
            lemma_split_from_concat(x, y, sep, i + 1, Seq::empty());
            assert(seq![cur] + (split_from(x, sep, i + 1, Seq::empty()) + split(y, sep)) =~= (seq![
                cur,
            ] + split_from(x, sep, i + 1, Seq::empty())) + split(y, sep));
        } else {
            lemma_split_from_concat(x, y, sep, i + 1, cur.push(x[i]));
        }
    }
}

/// Splitting at `sep` the elements joined with `sep` gives the elements back, when there
/// is at least one and none holds `sep`.
pub proof fn lemma_split_join(items: Seq<Seq<char>>, sep: char)
    requires
        items.len() > 0,
        forall|i: int| 0 <= i < items.len() ==> !(#[trigger] items[i]).contains(sep),
    ensures
        split(join_with(items, seq![sep]), sep) == items,
    decreases items.len(),
{
    let last = items.last();
    assert forall|k: int| 0 <= k < last.len() implies last[k] != sep by {
        if last[k] == sep {
            assert(items[items.len() - 1].contains(sep));
        }
    }
    lemma_split_from_no_sep(last, sep, 0, Seq::empty());
    assert(Seq::<char>::empty() + last.subrange(0, last.len() as int) =~= last);
    if items.len() == 1 {
        assert(seq![last] =~= items);
    } else {
        let d = items.drop_last();
        assert forall|i: int| 0 <= i < d.len() implies !(#[trigger] d[i]).contains(sep) by {
            assert(d[i] == items[i]);
        }
        lemma_split_join(d, sep);
        lemma_split_from_concat(join_with(d, seq![sep]), last, sep, 0, Seq::empty());
        assert(d + seq![last] =~= items);
    }
}

/// The pieces of `s` between occurrences of `sep`.
pub fn split_chars(s: &Vec<char>, sep: char) -> (r: Vec<Vec<char>>)
    ensures
        seqs_view(r@) == split(s@, sep),
        r@.len() >= 1,
{
    let mut done: Vec<Vec<char>> = Vec::new();
    let mut cur: Vec<char> = Vec::new();
    let mut i: usize = 0;
    while i < s.len()
        invariant
            i <= s.len(),
            seqs_view(done@) + split_from(s@, sep, i as int, cur@) == split(s@, sep),
        decreases s.len() - i,
    {
        let c = s[i];
        if c == sep {
            let ghost old_done = done@;
            let piece = cur;
            cur = Vec::new();
            done.push(piece);
            assert(seqs_view(done@) =~= seqs_view(old_done) + seq![piece@]);
            assert(split_from(s@, sep, i as int, piece@) == seq![piece@] + split_from(
                s@,
                sep,
                i + 1,
                cur@,
            ));
            assert(seqs_view(done@) + split_from(s@, sep, i + 1, cur@) =~= seqs_view(old_done)
                + split_from(s@, sep, i as int, piece@));
        } else {
            cur.push(c);
        }
        i = i + 1;
    }
    let ghost old_done = done@;
    let last = cur;
    done.push(last);
    assert(seqs_view(done@) =~= seqs_view(old_done) + seq![last@]);
    done
}

/// The pieces `toks[i..]`, each followed by one space, run together.
pub open spec fn join_spaced_from(toks: Seq<Seq<char>>, i: int) -> Seq<char>
    decreases toks.len() - i,
{
    if i >= toks.len() {
        Seq::empty()
    } else {
        toks[i] + seq![' '] + join_spaced_from(toks, i + 1)
    }
}

/// The pieces `toks[start..]`, each followed by one space, run together.
pub fn join_spaced(toks: &Vec<Vec<char>>, start: usize) -> (r: Vec<char>)
    ensures
        r@ == join_spaced_from(seqs_view(toks@), start as int),
{
    let ghost views = seqs_view(toks@);
    let mut r: Vec<char> = Vec::new();
    let mut i: usize = start;
    while i < toks.len()
        invariant
            views == seqs_view(toks@),
            start <= i,
            r@ + join_spaced_from(views, i as int) == join_spaced_from(views, start as int),
        decreases toks.len() - i,
    {
        let tok = &toks[i];
        let ghost before = r@;
        let mut j: usize = 0;
        while j < tok.len()
            invariant
                j <= tok.len(),
                r@ == before + tok@.take(j as int),
            decreases tok.len() - j,
        {
            r.push(tok[j]);
            j = j + 1;
            assert(r@ =~= before + tok@.take(j as int));
        }
        r.push(' ');
        assert(tok@.take(tok.len() as int) =~= tok@);
        assert(views[i as int] == tok@);
        assert(r@ + join_spaced_from(views, i + 1) =~= before + join_spaced_from(views, i as int));
        i = i + 1;
    }
    assert(r@ =~= r@ + join_spaced_from(views, i as int));
    r
}

/// The elements of `items`, with `sep` between neighbours.
pub open spec fn join_with(items: Seq<Seq<char>>, sep: Seq<char>) -> Seq<char>
    decreases items.len(),
{
    if items.len() == 0 {
        Seq::empty()
    } else if items.len() == 1 {
        items[0]
    } else {
        join_with(items.drop_last(), sep) + sep + items.last()
    }
}

// ---------------------------------------------------------------------------
// Searching
// ---------------------------------------------------------------------------

/// Whether `pat` occurs in `s` at position `i`.
pub open spec fn occurs_at(s: Seq<char>, pat: Seq<char>, i: int) -> bool {
    0 <= i && i + pat.len() <= s.len() && s.subrange(i, i + pat.len()) == pat
}

/// Whether `pat` occurs somewhere in `s` (the empty pattern occurs in every string).
pub open spec fn contains_seq(s: Seq<char>, pat: Seq<char>) -> bool {
    exists|i: int| occurs_at(s, pat, i)
}

/// Whether `s` begins with `pat`.
pub open spec fn starts_with_seq(s: Seq<char>, pat: Seq<char>) -> bool {
    occurs_at(s, pat, 0)
}

/// Whether `pat` occurs in `s` at position `i`.
pub fn occurs_at_chars(s: &Vec<char>, pat: &Vec<char>, i: usize) -> (r: bool)
    ensures
        r == occurs_at(s@, pat@, i as int),
{
    if pat.len() > s.len() || i > s.len() - pat.len() {
        return false;
    }
    let mut j: usize = 0;
    while j < pat.len()
        invariant
            i + pat.len() <= s.len(),
            j <= pat.len(),
            forall|k: int| 0 <= k < j ==> s@[i + k] == pat@[k],
        decreases pat.len() - j,
    {
        if s[i + j] != pat[j] {
            assert(s@.subrange(i as int, i + pat.len())[j as int] != pat@[j as int]);
            return false;
        }
        j = j + 1;
    }
    assert(s@.subrange(i as int, i + pat.len()) =~= pat@);
    true
}

/// Whether `pat` occurs somewhere in `s`: every start position is tried in turn.
pub fn contains_chars(s: &Vec<char>, pat: &Vec<char>) -> (r: bool)
    ensures
        r == contains_seq(s@, pat@),
{
    if pat.len() > s.len() {
        return false;
    }
    let last = s.len() - pat.len();
    let mut i: usize = 0;
    loop
        invariant
            last == s.len() - pat.len(),
            i <= last,
            forall|k: int| 0 <= k < i ==> !occurs_at(s@, pat@, k),
        decreases last - i,
    {
        if occurs_at_chars(s, pat, i) {
            return true;
        }
        if i == last {
            assert forall|k: int| !occurs_at(s@, pat@, k) by {
                if 0 <= k < i {
                }
            }
            return false;
        }
        i = i + 1;
    }
}

/// Whether `s` begins with the characters of `lit`.
pub fn starts_with_str(s: &Vec<char>, lit: &str) -> (r: bool)
    ensures
        r == starts_with_seq(s@, lit@),
{
    let pat = chars_of(lit);
    occurs_at_chars(s, &pat, 0)
}

/// Whether the characters of `lit` occur somewhere in `s`.
pub fn contains_str(s: &Vec<char>, lit: &str) -> (r: bool)
    ensures
        r == contains_seq(s@, lit@),
{
    let pat = chars_of(lit);
    contains_chars(s, &pat)
}

// ---------------------------------------------------------------------------
// Trimming
// ---------------------------------------------------------------------------

/// `s` without its leading run of `c` (as `str::trim_start_matches` with a character).
pub open spec fn trim_start_char(s: Seq<char>, c: char) -> Seq<char>
    decreases s.len(),
{
    if s.len() > 0 && s[0] == c {
        trim_start_char(s.drop_first(), c)
    } else {
        s
    }
}

/// `s` without its leading whitespace.
pub open spec fn trim_start_ws(s: Seq<char>) -> Seq<char>
    decreases s.len(),
{
    if s.len() > 0 && char_is_whitespace(s[0]) {
        trim_start_ws(s.drop_first())
    } else {
        s
    }
}

/// `s` without its trailing whitespace.
pub open spec fn trim_end_ws(s: Seq<char>) -> Seq<char>
    decreases s.len(),
{
    if s.len() > 0 && char_is_whitespace(s.last()) {
        trim_end_ws(s.drop_last())
    } else {
        s
    }
}

/// `s` without leading and trailing whitespace (as `str::trim`).
pub open spec fn trim_ws(s: Seq<char>) -> Seq<char> {
    trim_end_ws(trim_start_ws(s))
}

/// What is left after trimming leading whitespace does not start with whitespace.
pub proof fn lemma_trim_start_ws(s: Seq<char>)
    ensures
        trim_start_ws(s).len() > 0 ==> !char_is_whitespace(trim_start_ws(s)[0]),
    decreases s.len(),
{
    if s.len() > 0 && char_is_whitespace(s[0]) {
        lemma_trim_start_ws(s.drop_first());
    }
}

/// Trimming trailing whitespace keeps a prefix, which does not end with whitespace.
pub proof fn lemma_trim_end_ws(s: Seq<char>)
    ensures
        trim_end_ws(s).len() <= s.len(),
        trim_end_ws(s) == s.take(trim_end_ws(s).len() as int),
        trim_end_ws(s).len() > 0 ==> !char_is_whitespace(trim_end_ws(s).last()),
    decreases s.len(),
{
    if s.len() > 0 && char_is_whitespace(s.last()) {
        lemma_trim_end_ws(s.drop_last());
        let r = trim_end_ws(s.drop_last());
        assert(s.drop_last().take(r.len() as int) =~= s.take(r.len() as int));
    } else {
        assert(s.take(s.len() as int) =~= s);
    }
}

/// A trimmed text neither starts nor ends with whitespace.
pub proof fn lemma_trim_ws(s: Seq<char>)
    ensures
        trim_ws(s).len() > 0 ==> !char_is_whitespace(trim_ws(s)[0]) && !char_is_whitespace(
            trim_ws(s).last(),
        ),
{
    lemma_trim_start_ws(s);
    lemma_trim_end_ws(trim_start_ws(s));
}

/// `v` without its leading run of `c`.
pub fn trim_start_char_chars(v: &Vec<char>, c: char) -> (r: Vec<char>)
    ensures
        r@ == trim_start_char(v@, c),
{
    let n = v.len();
    let mut i: usize = 0;
    assert(v@.subrange(0, n as int) =~= v@);
    while i < n && v[i] == c
        invariant
            n == v.len(),
            i <= n,
            trim_start_char(v@.subrange(i as int, n as int), c) == trim_start_char(v@, c),
        decreases n - i,
    {
        assert(v@.subrange(i as int, n as int).drop_first() =~= v@.subrange(i + 1, n as int));
        i = i + 1;
    }
    sub_chars(v, i, n)
}

/// `v` without leading and trailing whitespace.
pub fn trim_chars(v: &Vec<char>) -> (r: Vec<char>)
    ensures
        r@ == trim_ws(v@),
{
    let n = v.len();
    let mut i: usize = 0;
    assert(v@.subrange(0, n as int) =~= v@);
    while i < n && is_whitespace(v[i])
        invariant
            n == v.len(),
            i <= n,
            trim_start_ws(v@.subrange(i as int, n as int)) == trim_start_ws(v@),
        decreases n - i,
    {
        assert(v@.subrange(i as int, n as int).drop_first() =~= v@.subrange(i + 1, n as int));
        i = i + 1;
    }
    let mut j: usize = n;
    while j > i && is_whitespace(v[j - 1])
        invariant
            n == v.len(),
            i <= j <= n,
            trim_end_ws(v@.subrange(i as int, j as int)) == trim_ws(v@),
        decreases j,
    {
        assert(v@.subrange(i as int, j as int).drop_last() =~= v@.subrange(i as int, j - 1));
        j = j - 1;
    }
    sub_chars(v, i, j)
}

// ---------------------------------------------------------------------------
// Decimal integers
// ---------------------------------------------------------------------------

/// Whether `c` is one of the ASCII digits `0`..`9`.
pub open spec fn is_digit(c: char) -> bool {
    '0' <= c && c <= '9'
}

/// Whether every character of `d` is an ASCII digit.
pub open spec fn all_digits(d: Seq<char>) -> bool {
    forall|i: int| 0 <= i < d.len() ==> is_digit(#[trigger] d[i])
}

/// The value of the decimal numeral `d` (most significant digit first).
pub open spec fn digits_value(d: Seq<char>) -> int
    decreases d.len(),
{
    if d.len() == 0 {
        0
    } else {
        digits_value(d.drop_last()) * 10 + ((d.last() as int) - ('0' as int))
    }
}

/// What `str::parse::<i32>` accepts and gives: an optional `+` or `-`, then one or
/// more ASCII digits, whose value must fit in `i32`; anything else is refused.
pub open spec fn parse_i32_spec(s: Seq<char>) -> Option<i32> {
    let neg = s.len() > 0 && s[0] == '-';
    let signed = s.len() > 0 && (s[0] == '-' || s[0] == '+');
    let d = if signed {
        s.drop_first()
    } else {
        s
    };
    if d.len() == 0 || !all_digits(d) {
        None
    } else {
        let v = if neg {
            -digits_value(d)
        } else {
            digits_value(d)
        };
        if i32::MIN <= v <= i32::MAX {
            Some(v as i32)
        } else {
            None
        }
    }
}

/// A numeral is worth at least any of its prefixes.
proof fn lemma_digits_value_prefix(d: Seq<char>, k: int)
    requires
        all_digits(d),
        0 <= k <= d.len(),
    ensures
        0 <= digits_value(d.take(k)) <= digits_value(d),
    decreases d.len(),
{
    if d.len() > 0 {
        let p = d.drop_last();
        assert(all_digits(p)) by {
            assert forall|i: int| 0 <= i < p.len() implies is_digit(#[trigger] p[i]) by {
                assert(p[i] == d[i]);
            }
        }
        assert(is_digit(d[d.len() - 1]));
        if k < d.len() {
            lemma_digits_value_prefix(p, k);
            assert(p.take(k) =~= d.take(k));
        } else {
            assert(d.take(k) =~= d);
            lemma_digits_value_prefix(p, p.len() as int);
            assert(p.take(p.len() as int) =~= p);
        }
    } else {
        assert(d.take(k) =~= d);
    }
}

/// `str::parse::<i32>` on the characters of `s`, checked digit by digit.
pub fn parse_i32(s: &Vec<char>) -> (r: Option<i32>)
    ensures
        r == parse_i32_spec(s@),
{
    let n = s.len();
    let mut start: usize = 0;
    let mut neg = false;
    if n > 0 && s[0] == '-' {
        neg = true;
        start = 1;
    } else if n > 0 && s[0] == '+' {
        start = 1;
    }
    let ghost d = s@.subrange(start as int, n as int);
    assert(d =~= (if start == 1 {
        s@.drop_first()
    } else {
        s@
    }));
    assert(start == 1 <==> (s@.len() > 0 && (s@[0] == '-' || s@[0] == '+')));
    assert(neg <==> (s@.len() > 0 && s@[0] == '-'));
    if start == n {
        return None;
    }
    let mut acc: u64 = 0;
    let mut i: usize = start;
    while i < n
        invariant
            n == s.len(),
            start <= i <= n,
            d == s@.subrange(start as int, n as int),
            d == (if s@.len() > 0 && (s@[0] == '-' || s@[0] == '+') {
                s@.drop_first()
            } else {
                s@
            }),
            neg <==> (s@.len() > 0 && s@[0] == '-'),
            all_digits(d.take(i - start)),
            acc == digits_value(d.take(i - start)),
            acc <= 2147483648,
        decreases n - i,
    {
        let c = s[i];
        if !('0' <= c && c <= '9') {
            assert(d[i - start] == c);
            assert(!is_digit(d[i - start]));
            assert(!all_digits(d));
            return None;
        }
        let dv = (c as u32 - '0' as u32) as u64;
        let ghost prev = d.take(i - start);
        acc = acc * 10 + dv;
        i = i + 1;
        assert(d.take(i - start).drop_last() =~= prev);
        assert(d.take(i - start).last() == c);
        assert(all_digits(d.take(i - start))) by {
            assert forall|k: int| 0 <= k < i - start implies is_digit(#[trigger] d.take(i - start)[k]) by {
                if k < i - start - 1 {
                    assert(d.take(i - start)[k] == prev[k]);
                }
            }
        }
        if acc > 2147483648 {
            proof {
                if all_digits(d) {
                    lemma_digits_value_prefix(d, i - start);
                    assert(digits_value(d) > 2147483648);
                }
            }
            return None;
        }
    }
    assert(d.take(n - start) =~= d);
    if neg {
        Some(-(acc as i64) as i32)
    } else if acc <= 2147483647 {
        Some(acc as i32)
    } else {
        None
    }
}

} // verus!
