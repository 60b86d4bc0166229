//! Sequences of characters and bytes: the vocabulary in which the rest of the
//! library states what a line of the protocol means.
//!
//! Every executable function here comes with a specification function over
//! `Seq`, and the lemmas relate the recursive definitions to the plain facts
//! ("the first index at which ...") that loops establish.
use vstd::prelude::*;
use vstd::string::*;

verus! {

/// Unicode `White_Space`: what `char::is_whitespace` accepts.
pub open spec fn is_space(c: char) -> bool {
    let n = c as u32;
    ||| 0x09 <= n <= 0x0d
    ||| n == 0x20
    ||| n == 0x85
    ||| n == 0xa0
    ||| n == 0x1680
    ||| 0x2000 <= n <= 0x200a
    ||| n == 0x2028
    ||| n == 0x2029
    ||| n == 0x202f
    ||| n == 0x205f
    ||| n == 0x3000
}

/// A set of characters that a scan can test membership of.
#[derive(Clone, Copy, Debug)]
pub enum CharClass {
    /// White space.
    Space,
    /// Everything but white space.
    NotSpace,
    /// One character.
    Is(char),
    /// Everything but one character.
    IsNot(char),
    /// No character at all.
    Nothing,
}

impl CharClass {
    pub open spec fn has(self, c: char) -> bool {
        match self {
            CharClass::Space => is_space(c),
            CharClass::NotSpace => !is_space(c),
            CharClass::Is(d) => c == d,
            CharClass::IsNot(d) => c != d,
            CharClass::Nothing => false,
        }
    }

    pub fn holds(&self, c: char) -> (b: bool)
        ensures
            b == self.has(c),
    {
        let n: u32 = c as u32;
        let space = (0x09 <= n && n <= 0x0d) || n == 0x20 || n == 0x85 || n == 0xa0 || n == 0x1680
            || (0x2000 <= n && n <= 0x200a) || n == 0x2028 || n == 0x2029 || n == 0x202f || n
            == 0x205f || n == 0x3000;
        match self {
            CharClass::Space => space,
            CharClass::NotSpace => !space,
            CharClass::Is(d) => c == *d,
            CharClass::IsNot(d) => c != *d,
            CharClass::Nothing => false,
        }
    }
}

/// How many characters at the front of `s` lie in `class`, counted up to the
/// first one that does not.
pub open spec fn run_front(s: Seq<char>, class: CharClass) -> nat
    decreases s.len(),
{
    if s.len() > 0 && class.has(s[0]) {
        1 + run_front(s.drop_first(), class)
    } else {
        0
    }
}

/// How many characters at the back of `s` lie in `class`.
pub open spec fn run_back(s: Seq<char>, class: CharClass) -> nat
    decreases s.len(),
{
    if s.len() > 0 && class.has(s.last()) {
        1 + run_back(s.drop_last(), class)
    } else {
        0
    }
}

/// `s` without its leading characters of `class`.
pub open spec fn trim_front(s: Seq<char>, class: CharClass) -> Seq<char> {
    s.subrange(run_front(s, class) as int, s.len() as int)
}

/// `s` without its trailing characters of `class`.
pub open spec fn trim_back(s: Seq<char>, class: CharClass) -> Seq<char> {
    s.subrange(0, s.len() - run_back(s, class))
}

/// `s` without white space at either end.
pub open spec fn trim(s: Seq<char>) -> Seq<char> {
    trim_back(trim_front(s, CharClass::Space), CharClass::Space)
}

/// `pat` stands in `s` at index `i`.
pub open spec fn occurs<T>(s: Seq<T>, pat: Seq<T>, i: int) -> bool {
    0 <= i && i + pat.len() <= s.len() && s.subrange(i, i + pat.len()) == pat
}

/// The first index at which `pat` stands in `s`; `s.len()` where it stands
/// nowhere.
pub open spec fn seek<T>(s: Seq<T>, pat: Seq<T>) -> nat
    decreases s.len(),
{
    if s.len() == 0 || s.len() < pat.len() {
        s.len()
    } else if s.subrange(0, pat.len() as int) == pat {
        0
    } else {
        1 + seek(s.drop_first(), pat)
    }
}

/// `s` cut at every occurrence of `pat`, read from the left; the occurrences
/// themselves are dropped. A sequence without `pat` is one piece.
pub open spec fn pieces<T>(s: Seq<T>, pat: Seq<T>) -> Seq<Seq<T>>
    decreases s.len(),
{
    let k = seek(s, pat);
    if pat.len() == 0 || k + pat.len() > s.len() {
        seq![s]
    } else {
        seq![s.subrange(0, k as int)] + pieces(s.subrange((k + pat.len()) as int, s.len() as int), pat)
    }
}

/// The parts put together again with `sep` between neighbours.
pub open spec fn join(parts: Seq<Seq<char>>, sep: Seq<char>) -> Seq<char>
    decreases parts.len(),
{
    if parts.len() == 0 {
        Seq::empty()
    } else if parts.len() == 1 {
        parts[0]
    } else {
        parts[0] + sep + join(parts.drop_first(), sep)
    }
}

/// The ASCII capital of a small ASCII letter; any other character unchanged.
pub open spec fn upper(c: char) -> char {
    if 0x61 <= c as u32 <= 0x7a {
        ((c as u32 - 0x20) as u8) as char
    } else {
        c
    }
}

/// `s` with every character replaced by its `upper`.
pub open spec fn upper_all(s: Seq<char>) -> Seq<char> {
    Seq::new(s.len(), |i: int| upper(s[i]))
}

/// What each string of a list holds.
pub open spec fn texts(v: Seq<String>) -> Seq<Seq<char>> {
    Seq::new(v.len(), |i: int| v[i]@)
}

pub proof fn lemma_run_front(s: Seq<char>, class: CharClass, k: int)
    requires
        0 <= k <= s.len(),
        forall|j: int| 0 <= j < k ==> class.has(#[trigger] s[j]),
        k == s.len() || !class.has(s[k]),
    ensures
        run_front(s, class) == k,
    decreases k,
{
    if k > 0 {
        let t = s.drop_first();
        lemma_run_front(t, class, k - 1);
    }
}

pub proof fn lemma_run_front_bounds(s: Seq<char>, class: CharClass)
    ensures
        run_front(s, class) <= s.len(),
        forall|j: int| 0 <= j < run_front(s, class) ==> class.has(#[trigger] s[j]),
        run_front(s, class) == s.len() || !class.has(s[run_front(s, class) as int]),
    decreases s.len(),
{
    if s.len() > 0 && class.has(s[0]) {
        let t = s.drop_first();
        lemma_run_front_bounds(t, class);
        assert forall|j: int| 0 <= j < run_front(s, class) implies class.has(#[trigger] s[j]) by {
            if j > 0 {
                assert(s[j] == t[j - 1]);
            }
        }
    }
}

pub proof fn lemma_run_back(s: Seq<char>, class: CharClass, k: int)
    requires
        0 <= k <= s.len(),
        forall|j: int| s.len() - k <= j < s.len() ==> class.has(#[trigger] s[j]),
        k == s.len() || !class.has(s[s.len() - k - 1]),
    ensures
        run_back(s, class) == k,
    decreases k,
{
    if k > 0 {
        let t = s.drop_last();
        lemma_run_back(t, class, k - 1);
    }
}

pub proof fn lemma_run_back_bounds(s: Seq<char>, class: CharClass)
    ensures
        run_back(s, class) <= s.len(),
        forall|j: int| s.len() - run_back(s, class) <= j < s.len() ==> class.has(#[trigger] s[j]),
        run_back(s, class) == s.len() || !class.has(s[s.len() - run_back(s, class) - 1]),
    decreases s.len(),
{
    if s.len() > 0 && class.has(s.last()) {
        let t = s.drop_last();
        lemma_run_back_bounds(t, class);
        assert forall|j: int| s.len() - run_back(s, class) <= j < s.len() implies class.has(
            #[trigger] s[j],
        ) by {
            if j < s.len() - 1 {
                assert(s[j] == t[j]);
            }
        }
    }
}

/// An occurrence in `s` without its first element is one in `s`, one place on.
pub proof fn lemma_occurs_shift<T>(s: Seq<T>, pat: Seq<T>, j: int)
    requires
        s.len() > 0,
        0 <= j,
    ensures
        occurs(s.drop_first(), pat, j) == occurs(s, pat, j + 1),
{
    let t = s.drop_first();
    if j + pat.len() <= t.len() {
        assert(t.subrange(j, j + pat.len()) =~= s.subrange(j + 1, j + 1 + pat.len()));
    }
}

/// `seek` finds an occurrence, and none stands before it.
pub proof fn lemma_seek_bounds<T>(s: Seq<T>, pat: Seq<T>)
    requires
        pat.len() > 0,
    ensures
        seek(s, pat) <= s.len(),
        seek(s, pat) < s.len() ==> occurs(s, pat, seek(s, pat) as int),
        forall|j: int| 0 <= j < seek(s, pat) ==> !occurs(s, pat, j),
    decreases s.len(),
{
    if s.len() >= pat.len() && s.subrange(0, pat.len() as int) != pat {
        let t = s.drop_first();
        lemma_seek_bounds(t, pat);
        if seek(t, pat) < t.len() {
            lemma_occurs_shift(s, pat, seek(t, pat) as int);
        }
        assert forall|j: int| 0 <= j < seek(s, pat) implies !occurs(s, pat, j) by {
            if j > 0 {
                lemma_occurs_shift(s, pat, j - 1);
            }
        }
    }
}

/// The first occurrence is what `seek` returns.
pub proof fn lemma_seek_found<T>(s: Seq<T>, pat: Seq<T>, k: int)
    requires
        pat.len() > 0,
        occurs(s, pat, k),
        forall|j: int| 0 <= j < k ==> !occurs(s, pat, j),
    ensures
        seek(s, pat) == k,
{
    lemma_seek_bounds(s, pat);
}

/// Where `pat` stands nowhere, `seek` returns the length.
pub proof fn lemma_seek_absent<T>(s: Seq<T>, pat: Seq<T>)
    requires
        pat.len() > 0,
        forall|j: int| 0 <= j ==> !occurs(s, pat, j),
    ensures
        seek(s, pat) == s.len(),
{
    lemma_seek_bounds(s, pat);
}

/// Cutting at a character and joining with it gives the sequence back.
pub proof fn lemma_join_pieces(s: Seq<char>, sep: Seq<char>)
    requires
        sep.len() > 0,
    ensures
        join(pieces(s, sep), sep) == s,
        pieces(s, sep).len() >= 1,
    decreases s.len(),
{
    let k = seek(s, sep);
    lemma_seek_bounds(s, sep);
    if k + sep.len() <= s.len() {
        let head = s.subrange(0, k as int);
        let rest = s.subrange((k + sep.len()) as int, s.len() as int);
        lemma_join_pieces(rest, sep);
        let all = seq![head] + pieces(rest, sep);
        assert(all.drop_first() =~= pieces(rest, sep));
    }
}

/// The characters of a string, one by one.
pub fn to_chars(s: &str) -> (v: Vec<char>)
    ensures
        v@ == s@,
{
    let n: usize = s.unicode_len();
    let mut v: Vec<char> = Vec::new();
    let mut i: usize = 0;
    while i < n
        invariant
            i <= n,
            n == s@.len(),
            v@ == s@.subrange(0, i as int),
        decreases n - i,
    {
        let c = s.get_char(i);
        v.push(c);
        i = i + 1;
    }
    v
}

/// `std`'s `String::push` appends one character.
pub assume_specification[ String::push ](s: &mut String, ch: char)
    ensures
        final(s)@ == old(s)@.push(ch),
;

/// The string that holds `v[lo..hi]`.
pub fn text_of(v: &Vec<char>, lo: usize, hi: usize) -> (s: String)
    requires
        lo <= hi <= v.len(),
    ensures
        s@ == v@.subrange(lo as int, hi as int),
{
    let mut s = String::new();
    let mut i: usize = lo;
    while i < hi
        invariant
            lo <= i <= hi <= v.len(),
            s@ == v@.subrange(lo as int, i as int),
        decreases hi - i,
    {
        s.push(v[i]);
        i = i + 1;
    }
    s
}

/// The characters `v[lo..hi]`.
pub fn chars_of(v: &Vec<char>, lo: usize, hi: usize) -> (out: Vec<char>)
    requires
        lo <= hi <= v.len(),
    ensures
        out@ == v@.subrange(lo as int, hi as int),
{
    let mut out: Vec<char> = Vec::new();
    let mut i: usize = lo;
    while i < hi
        invariant
            lo <= i <= hi <= v.len(),
            out@ == v@.subrange(lo as int, i as int),
        decreases hi - i,
    {
        out.push(v[i]);
        i = i + 1;
    }
    out
}

/// Counts the leading characters of `v[from..]` that lie in `class`.
pub fn count_front(v: &Vec<char>, from: usize, class: CharClass) -> (k: usize)
    requires
        from <= v.len(),
    ensures
        k == run_front(v@.subrange(from as int, v.len() as int), class),
        from + k <= v.len(),
{
    let ghost s = v@.subrange(from as int, v.len() as int);
    let mut i: usize = from;
    while i < v.len() && class.holds(v[i])
        invariant
            from <= i <= v.len(),
            s == v@.subrange(from as int, v.len() as int),
            forall|j: int| 0 <= j < i - from ==> class.has(#[trigger] s[j]),
        decreases v.len() - i,
    {
        i = i + 1;
    }
    proof {
        lemma_run_front(s, class, i - from);
    }
    i - from
}

/// Counts the trailing characters of `v[from..to]` that lie in `class`.
pub fn count_back(v: &Vec<char>, from: usize, to: usize, class: CharClass) -> (k: usize)
    requires
        from <= to <= v.len(),
    ensures
        k == run_back(v@.subrange(from as int, to as int), class),
        from + k <= to,
{
    let ghost s = v@.subrange(from as int, to as int);
    let mut i: usize = to;
    while i > from && class.holds(v[i - 1])
        invariant
            from <= i <= to <= v.len(),
            s == v@.subrange(from as int, to as int),
            forall|j: int| i - from <= j < s.len() ==> class.has(#[trigger] s[j]),
        decreases i,
    {
        i = i - 1;
    }
    proof {
        lemma_run_back(s, class, to - i);
    }
    to - i
}

/// `v` without its leading characters of `front` and, of what is left, the
/// trailing characters of `back`.
pub fn trimmed_by(v: &Vec<char>, front: CharClass, back: CharClass) -> (s: String)
    ensures
        s@ == trim_back(trim_front(v@, front), back),
{
    let lo = count_front(v, 0, front);
    let tail = count_back(v, lo, v.len(), back);
    proof {
        assert(v@.subrange(0, v.len() as int) =~= v@);
    }
    text_of(v, lo, v.len() - tail)
}

/// `v` without white space at either end.
pub fn trimmed(v: &Vec<char>) -> (s: String)
    ensures
        s@ == trim(v@),
{
    trimmed_by(v, CharClass::Space, CharClass::Space)
}

/// A list of strings that hold what those of `v` hold.
pub fn clone_texts(v: &Vec<String>) -> (out: Vec<String>)
    ensures
        texts(out@) == texts(v@),
{
    let mut out: Vec<String> = Vec::new();
    let mut i: usize = 0;
    while i < v.len()
        invariant
            i <= v.len(),
            out@.len() == i,
            forall|j: int| 0 <= j < i ==> (#[trigger] out@[j])@ == v@[j]@,
        decreases v.len() - i,
    {
        out.push(v[i].clone());
        i = i + 1;
    }
    out
}

/// Whether `pat` stands in `v` at index `at`.
pub fn matches_at(v: &Vec<char>, at: usize, pat: &Vec<char>) -> (b: bool)
    requires
        at <= v.len(),
    ensures
        b == occurs(v@, pat@, at as int),
{
    if pat.len() > v.len() - at {
        return false;
    }
    let mut i: usize = 0;
    while i < pat.len()
        invariant
            i <= pat.len(),
            at + pat.len() <= v.len(),
            forall|j: int| 0 <= j < i ==> v@[at + j] == pat@[j],
        decreases pat.len() - i,
    {
        if v[at + i] != pat[i] {
            return false;
        }
        i = i + 1;
    }
    proof {
        assert(v@.subrange(at as int, at + pat.len()) =~= pat@);
    }
    true
}

/// The first index of `v[from..]` at which `pat` stands, counted from `from`.
pub fn find_chars(v: &Vec<char>, from: usize, pat: &Vec<char>) -> (k: usize)
    requires
        from <= v.len(),
        pat.len() > 0,
    ensures
        k == seek(v@.subrange(from as int, v.len() as int), pat@),
        from + k <= v.len(),
{
    let ghost s = v@.subrange(from as int, v.len() as int);
    let mut i: usize = from;
    while i < v.len()
        invariant
            from <= i <= v.len(),
            pat.len() > 0,
            s == v@.subrange(from as int, v.len() as int),
            forall|j: int| 0 <= j < i - from ==> !occurs(s, pat@, j),
        decreases v.len() - i,
    {
        let hit = matches_at(v, i, pat);
        proof {
            if i + pat.len() <= v.len() {
                assert(s.subrange(i - from, i - from + pat.len()) =~= v@.subrange(
                    i as int,
                    i + pat.len(),
                ));
            }
        }
        if hit {
            proof {
                lemma_seek_found(s, pat@, i - from);
            }
            return i - from;
        }
        i = i + 1;
    }
    proof {
        lemma_seek_absent(s, pat@);
    }
    i - from
}

/// Cuts `v` at every occurrence of `pat`.
pub fn split_chars(v: &Vec<char>, pat: &Vec<char>) -> (parts: Vec<String>)
    requires
        pat.len() > 0,
    ensures
        texts(parts@) == pieces(v@, pat@),
{
    let mut parts: Vec<String> = Vec::new();
    let mut start: usize = 0;
    proof {
        assert(v@.subrange(0, v.len() as int) =~= v@);
    }
    loop
        invariant_except_break
            pieces(v@, pat@) == texts(parts@) + pieces(
                v@.subrange(start as int, v.len() as int),
                pat@,
            ),
        invariant
            start <= v.len(),
            pat.len() > 0,
        ensures
            texts(parts@) == pieces(v@, pat@),
        decreases v.len() - start,
    {
        let ghost rest = v@.subrange(start as int, v.len() as int);
        let k = find_chars(v, start, pat);
        if v.len() - start < pat.len() || k > v.len() - start - pat.len() {
            let piece = text_of(v, start, v.len());
            parts.push(piece);
            break ;
        }
        let piece = text_of(v, start, start + k);
        parts.push(piece);
        proof {
            let head = rest.subrange(0, k as int);
            let tail = rest.subrange(k + pat.len(), rest.len() as int);
            assert(head =~= v@.subrange(start as int, start + k));
            assert(tail =~= v@.subrange(start + k + pat.len(), v.len() as int));
        }
        start = start + k + pat.len();
    }
    parts
}

/// Puts the parts together with `sep` between neighbours.
pub fn join_texts(parts: &Vec<String>, sep: &str) -> (s: String)
    ensures
        s@ == join(texts(parts@), sep@),
{
    let mut s = String::new();
    let mut i: usize = parts.len();
    while i > 0
        invariant
            i <= parts.len(),
            s@ == join(texts(parts@).subrange(i as int, parts.len() as int), sep@),
        decreases i,
    {
        let ghost tail = texts(parts@).subrange(i as int, parts.len() as int);
        i = i - 1;
        let ghost now = texts(parts@).subrange(i as int, parts.len() as int);
        let mut t = parts[i].clone();
        proof {
            assert(now.drop_first() =~= tail);
        }
        if i + 1 < parts.len() {
            t.append(sep);
            t.append(s.as_str());
        } else {
        }
        s = t;
    }
    proof {
        assert(texts(parts@).subrange(0, parts.len() as int) =~= texts(parts@));
    }
    s
}

/// The ASCII capital of `c`.
pub fn to_upper(c: char) -> (u: char)
    ensures
        u == upper(c),
{
    let n: u32 = c as u32;
    if 0x61 <= n && n <= 0x7a {
        ((n - 0x20) as u8) as char
    } else {
        c
    }
}

/// `v` in ASCII capitals.
pub fn uppercased(v: &Vec<char>, lo: usize, hi: usize) -> (s: String)
    requires
        lo <= hi <= v.len(),
    ensures
        s@ == upper_all(v@.subrange(lo as int, hi as int)),
{
    let mut s = String::new();
    let mut i: usize = lo;
    while i < hi
        invariant
            lo <= i <= hi <= v.len(),
            s@ == upper_all(v@.subrange(lo as int, i as int)),
        decreases hi - i,
    {
        s.push(to_upper(v[i]));
        i = i + 1;
    }
    s
}

/// ASCII white space: space, tab, line feed, form feed, carriage return.
pub open spec fn is_ascii_blank(b: u8) -> bool {
    b == 0x20 || b == 0x09 || b == 0x0a || b == 0x0c || b == 0x0d
}

/// A line of nothing but ASCII white space.
pub open spec fn blank(line: Seq<u8>) -> bool {
    forall|i: int| 0 <= i < line.len() ==> is_ascii_blank(#[trigger] line[i])
}

/// Whether `line` holds nothing but ASCII white space.
pub fn is_blank(line: &Vec<u8>) -> (b: bool)
    ensures
        b == blank(line@),
{
    let mut i: usize = 0;
    while i < line.len()
        invariant
            i <= line.len(),
            forall|j: int| 0 <= j < i ==> is_ascii_blank(#[trigger] line@[j]),
        decreases line.len() - i,
    {
        let b = line[i];
        if !(b == 0x20 || b == 0x09 || b == 0x0a || b == 0x0c || b == 0x0d) {
            return false;
        }
        i = i + 1;
    }
    true
}

/// Whether `pat` stands in `v` at index `at`.
pub fn bytes_match_at(v: &Vec<u8>, at: usize, pat: &Vec<u8>) -> (b: bool)
    requires
        at <= v.len(),
    ensures
        b == occurs(v@, pat@, at as int),
{
    if pat.len() > v.len() - at {
        return false;
    }
    let mut i: usize = 0;
    while i < pat.len()
        invariant
            i <= pat.len(),
            at + pat.len() <= v.len(),
            forall|j: int| 0 <= j < i ==> v@[at + j] == pat@[j],
        decreases pat.len() - i,
    {
        if v[at + i] != pat[i] {
            return false;
        }
        i = i + 1;
    }
    proof {
        assert(v@.subrange(at as int, at + pat.len()) =~= pat@);
    }
    true
}

/// The first index of `v` at which `pat` stands; `v.len()` where it stands
/// nowhere.
pub fn find_bytes(v: &Vec<u8>, pat: &Vec<u8>) -> (k: usize)
    requires
        pat.len() > 0,
    ensures
        k == seek(v@, pat@),
        k <= v.len(),
{
    let mut i: usize = 0;
    while i < v.len()
        invariant
            i <= v.len(),
            pat.len() > 0,
            forall|j: int| 0 <= j < i ==> !occurs(v@, pat@, j),
        decreases v.len() - i,
    {
        if bytes_match_at(v, i, pat) {
            proof {
                lemma_seek_found(v@, pat@, i as int);
            }
            return i;
        }
        i = i + 1;
    }
    proof {
        lemma_seek_absent(v@, pat@);
    }
    i
}

/// Whether two strings hold the same characters.
pub fn same_text(a: &str, b: &str) -> (r: bool)
    ensures
        r == (a@ == b@),
{
    let x = String::from_str(a);
    let y = String::from_str(b);
    x == y
}

} // verus!
