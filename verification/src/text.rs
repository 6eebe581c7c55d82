use vstd::prelude::*;
use vstd::utf8::{encode_scalar, encode_utf8, is_char_boundary};

verus! {

/// Whether `c` has the Unicode `White_Space` property, which is what
/// `char::is_whitespace` and `str::trim` go by.
pub open spec fn is_ws(c: char) -> bool {
    let u = c as u32;
    ||| 0x09 <= u <= 0x0d
    ||| u == 0x20
    ||| u == 0x85
    ||| u == 0xa0
    ||| u == 0x1680
    ||| 0x2000 <= u <= 0x200a
    ||| u == 0x2028
    ||| u == 0x2029
    ||| u == 0x202f
    ||| u == 0x205f
    ||| u == 0x3000
}

/// Every character of `s` is whitespace, that is `s.trim()` is empty.
pub open spec fn all_ws(s: Seq<char>) -> bool {
    forall|k: int| 0 <= k < s.len() ==> is_ws(#[trigger] s[k])
}

/// `s` without its leading whitespace, as `str::trim_start` gives it.
pub open spec fn trim_start(s: Seq<char>) -> Seq<char>
    decreases s.len(),
{
    if s.len() > 0 && is_ws(s[0]) {
        trim_start(s.drop_first())
    } else {
        s
    }
}

/// The first position at or after `i` that holds `c`.
pub open spec fn find_char_from(s: Seq<char>, c: char, i: int) -> Option<int>
    decreases s.len() - i,
{
    if i < 0 || i >= s.len() {
        None
    } else if s[i] == c {
        Some(i)
    } else {
        find_char_from(s, c, i + 1)
    }
}

/// `pat` occurs in `s` starting at `i`.
pub open spec fn matches_at(s: Seq<char>, pat: Seq<char>, i: int) -> bool {
    0 <= i && i + pat.len() <= s.len() && s.subrange(i, i + pat.len()) == pat
}

/// The first position at or after `i` where `pat` occurs in `s`.
pub open spec fn find_str_from(s: Seq<char>, pat: Seq<char>, i: int) -> Option<int>
    decreases s.len() + 1 - i,
{
    if i < 0 || i + pat.len() > s.len() {
        None
    } else if matches_at(s, pat, i) {
        Some(i)
    } else {
        find_str_from(s, pat, i + 1)
    }
}

/// What `find_char_from` gives: the first match at or after `i`.
pub proof fn lemma_find_char_from(s: Seq<char>, c: char, i: int)
    requires
        0 <= i,
    ensures
        find_char_from(s, c, i) matches Some(k) ==> {
            &&& i <= k < s.len()
            &&& s[k] == c
            &&& forall|j: int| i <= j < k ==> s[j] != c
        },
        find_char_from(s, c, i) is None ==> forall|j: int| i <= j < s.len() ==> s[j] != c,
    decreases s.len() - i,
{
    if i < s.len() && s[i] != c {
        lemma_find_char_from(s, c, i + 1);
    }
}

/// What `find_str_from` gives: the first occurrence at or after `i`.
pub proof fn lemma_find_str_from(s: Seq<char>, pat: Seq<char>, i: int)
    requires
        0 <= i,
    ensures
        find_str_from(s, pat, i) matches Some(k) ==> {
            &&& i <= k
            &&& matches_at(s, pat, k)
            &&& forall|j: int| i <= j < k ==> !matches_at(s, pat, j)
        },
        find_str_from(s, pat, i) is None ==> forall|j: int| i <= j ==> !matches_at(s, pat, j),
    decreases s.len() + 1 - i,
{
    if i + pat.len() <= s.len() && !matches_at(s, pat, i) {
        lemma_find_str_from(s, pat, i + 1);
    }
}

/// Conversely, the first occurrence is what `find_str_from` gives.
pub proof fn lemma_find_str_first(s: Seq<char>, pat: Seq<char>, i: int, k: int)
    requires
        0 <= i <= k,
        matches_at(s, pat, k),
        forall|j: int| i <= j < k ==> !matches_at(s, pat, j),
    ensures
        find_str_from(s, pat, i) == Some(k),
    decreases k - i,
{
    if i < k {
        lemma_find_str_first(s, pat, i + 1, k);
    }
}

/// Conversely, the first position holding `c` is what `find_char_from` gives.
pub proof fn lemma_find_char_first(s: Seq<char>, c: char, i: int, k: int)
    requires
        0 <= i <= k < s.len(),
        s[k] == c,
        forall|j: int| i <= j < k ==> s[j] != c,
    ensures
        find_char_from(s, c, i) == Some(k),
    decreases k - i,
{
    if i < k {
        lemma_find_char_first(s, c, i + 1, k);
    }
}

/// `trim_start` drops exactly the leading run of whitespace.
pub proof fn lemma_trim_start(s: Seq<char>, r: int)
    requires
        0 <= r <= s.len(),
        all_ws(s.take(r)),
        r < s.len() ==> !is_ws(s[r]),
    ensures
        trim_start(s) == s.skip(r),
    decreases r,
{
    if r > 0 {
        assert(is_ws(s.take(r)[0]));
        let t = s.drop_first();
        assert forall|k: int| 0 <= k < r - 1 implies is_ws(#[trigger] t.take(r - 1)[k]) by {
            assert(is_ws(s.take(r)[k + 1]));
        }
        lemma_trim_start(t, r - 1);
        assert(t.skip(r - 1) =~= s.skip(r));
    } else {
        assert(s.skip(0) =~= s);
    }
}

/// A whitespace run followed by whitespace is one character longer.
pub proof fn lemma_all_ws_extend(s: Seq<char>, from: int, j: int)
    requires
        0 <= from <= j < s.len(),
        all_ws(s.subrange(from, j)),
        is_ws(s[j]),
    ensures
        all_ws(s.subrange(from, j + 1)),
{
    assert forall|k: int| 0 <= k < j + 1 - from implies is_ws(#[trigger] s.subrange(from, j + 1)[k]) by {
        if k < j - from {
            assert(s.subrange(from, j + 1)[k] == s.subrange(from, j)[k]);
        }
    }
}

/// `t` is the inside of a JSON string: it holds no unescaped `"`, and every `\`
/// escapes the character after it.
pub open spec fn is_string_body(t: Seq<char>) -> bool
    decreases t.len(),
{
    if t.len() == 0 {
        true
    } else if t[0] == '"' {
        false
    } else if t[0] == '\\' {
        t.len() >= 2 && is_string_body(t.skip(2))
    } else {
        is_string_body(t.skip(1))
    }
}

/// After a complete string body, what follows is read as if it stood alone.
pub proof fn lemma_string_body_append(t: Seq<char>, u: Seq<char>)
    requires
        is_string_body(t),
    ensures
        is_string_body(t + u) == is_string_body(u),
    decreases t.len(),
{
    if t.len() == 0 {
        assert(t + u =~= u);
    } else if t[0] == '\\' {
        lemma_string_body_append(t.skip(2), u);
        assert((t + u).skip(2) =~= t.skip(2) + u);
    } else {
        lemma_string_body_append(t.skip(1), u);
        assert((t + u).skip(1) =~= t.skip(1) + u);
    }
}

/// Text without double quotes and backslashes is a string body as it stands.
pub proof fn lemma_plain_string_body(t: Seq<char>)
    requires
        forall|i: int| 0 <= i < t.len() ==> t[i] != '"' && t[i] != '\\',
    ensures
        is_string_body(t),
    decreases t.len(),
{
    if t.len() > 0 {
        lemma_plain_string_body(t.skip(1));
    }
}

/// A string body closes at one place only: the first quote reached at its top level.
pub proof fn lemma_string_end_unique(s: Seq<char>, a: int, e1: int, e2: int)
    requires
        0 <= a <= e1 < s.len(),
        a <= e2 < s.len(),
        is_string_body(s.subrange(a, e1)),
        s[e1] == '"',
        is_string_body(s.subrange(a, e2)),
        s[e2] == '"',
    ensures
        e1 == e2,
{
    if e1 < e2 {
        lemma_string_body_append(s.subrange(a, e1), s.subrange(e1, e2));
        assert(s.subrange(a, e1) + s.subrange(e1, e2) =~= s.subrange(a, e2));
    } else if e2 < e1 {
        lemma_string_body_append(s.subrange(a, e2), s.subrange(e2, e1));
        assert(s.subrange(a, e2) + s.subrange(e2, e1) =~= s.subrange(a, e1));
    }
}

/// Whether `c` is whitespace, as `char::is_whitespace` decides it.
pub fn is_whitespace(c: char) -> (r: bool)
    ensures
        r == is_ws(c),
{
    let u = c as u32;
    (0x09 <= u && u <= 0x0d) || u == 0x20 || u == 0x85 || u == 0xa0 || u == 0x1680 || (0x2000
        <= u && u <= 0x200a) || u == 0x2028 || u == 0x2029 || u == 0x202f || u == 0x205f || u
        == 0x3000
}

/// The characters of `s`, one by one.
pub fn to_chars(s: &str) -> (v: Vec<char>)
    ensures
        v@ == s@,
{
    let mut v: Vec<char> = Vec::new();
    for c in it: s.chars()
        invariant
            it.seq() == s@,
            v@ == s@.take(it.index() as int),
    {
        v.push(c);
        assert(v@ =~= s@.take(it.index() + 1));
    }
    assert(v@ =~= s@);
    v
}

/// The first position at or after `i` that holds `c`.
pub fn find_char(v: &Vec<char>, c: char, i: usize) -> (r: Option<usize>)
    ensures
        match r {
            Some(k) => find_char_from(v@, c, i as int) == Some(k as int),
            None => find_char_from(v@, c, i as int) is None,
        },
{
    let mut j = i;
    while j < v.len()
        invariant
            i <= j,
            find_char_from(v@, c, i as int) == find_char_from(v@, c, j as int),
        decreases v.len() - j,
    {
        if v[j] == c {
            return Some(j);
        }
        j = j + 1;
    }
    None
}

/// Whether `v[from..to]` is all whitespace.
pub fn is_all_ws(v: &Vec<char>, from: usize, to: usize) -> (r: bool)
    requires
        from <= to <= v.len(),
    ensures
        r == all_ws(v@.subrange(from as int, to as int)),
{
    let mut j = from;
    while j < to
        invariant
            from <= j <= to <= v.len(),
            all_ws(v@.subrange(from as int, j as int)),
        decreases to - j,
    {
        if !is_whitespace(v[j]) {
            assert(v@.subrange(from as int, to as int)[j - from] == v@[j as int]);
            return false;
        }
        j = j + 1;
        proof { lemma_all_ws_extend(v@, from as int, j - 1); }
    }
    true
}

/// The first position at or after `from` that is not whitespace, or the length.
pub fn skip_ws(v: &Vec<char>, from: usize) -> (r: usize)
    requires
        from <= v.len(),
    ensures
        from <= r <= v.len(),
        all_ws(v@.subrange(from as int, r as int)),
        r < v.len() ==> !is_ws(v@[r as int]),
{
    let mut j = from;
    while j < v.len() && is_whitespace(v[j])
        invariant
            from <= j <= v.len(),
            all_ws(v@.subrange(from as int, j as int)),
        decreases v.len() - j,
    {
        j = j + 1;
        proof { lemma_all_ws_extend(v@, from as int, j - 1); }
    }
    j
}

/// Whether `pat` occurs in `v` at `i`.
pub fn matches_here(v: &Vec<char>, pat: &Vec<char>, i: usize) -> (r: bool)
    ensures
        r == matches_at(v@, pat@, i as int),
{
    if i > v.len() || pat.len() > v.len() - i {
        return false;
    }
    let mut j: usize = 0;
    while j < pat.len()
        invariant
            i + pat.len() <= v.len(),
            j <= pat.len(),
            forall|k: int| 0 <= k < j ==> v@[i + k] == pat@[k],
        decreases pat.len() - j,
    {
        if v[i + j] != pat[j] {
            assert(v@.subrange(i as int, i + pat.len())[j as int] != pat@[j as int]);
            return false;
        }
        j = j + 1;
    }
    assert(v@.subrange(i as int, i + pat.len()) =~= pat@);
    true
}

/// The first occurrence of `pat` in `v`.
pub fn find_str(v: &Vec<char>, pat: &Vec<char>) -> (r: Option<usize>)
    ensures
        match r {
            Some(k) => find_str_from(v@, pat@, 0) == Some(k as int),
            None => find_str_from(v@, pat@, 0) is None,
        },
{
    let mut i: usize = 0;
    while i <= v.len()
        invariant
            find_str_from(v@, pat@, 0) == find_str_from(v@, pat@, i as int),
        decreases v.len() + 1 - i,
    {
        if pat.len() > v.len() - i {
            return None;
        }
        if matches_here(v, pat, i) {
            return Some(i);
        }
        if i == v.len() {
            assert(find_str_from(v@, pat@, i + 1) is None);
            return None;
        }
        i = i + 1;
    }
    None
}

/// Whether `a` and `b` hold the same characters.
pub fn str_eq(a: &str, b: &str) -> (r: bool)
    ensures
        r == (a@ == b@),
{
    let x = to_chars(a);
    let y = to_chars(b);
    if x.len() != y.len() {
        return false;
    }
    let mut i: usize = 0;
    while i < x.len()
        invariant
            x@ == a@,
            y@ == b@,
            x.len() == y.len(),
            i <= x.len(),
            forall|k: int| 0 <= k < i ==> x@[k] == y@[k],
        decreases x.len() - i,
    {
        if x[i] != y[i] {
            assert(a@[i as int] != b@[i as int]);
            return false;
        }
        i = i + 1;
    }
    assert(x@ =~= y@);
    true
}

/// The byte offset, in the UTF-8 encoding of `s`, at which the character at `i` starts.
pub open spec fn byte_pos(s: Seq<char>, i: int) -> int {
    encode_utf8(s.take(i)).len() as int
}

/// Encoding a concatenation concatenates the encodings.
pub proof fn lemma_encode_utf8_append(a: Seq<char>, b: Seq<char>)
    ensures
        encode_utf8(a + b) == encode_utf8(a) + encode_utf8(b),
    decreases a.len(),
{
    if a.len() == 0 {
        assert(a + b =~= b);
        assert(encode_utf8(a) + encode_utf8(b) =~= encode_utf8(b));
    } else {
        lemma_encode_utf8_append(a.drop_first(), b);
        assert((a + b).drop_first() =~= a.drop_first() + b);
        assert((a + b)[0] == a[0]);
        assert(encode_utf8(a + b) =~= encode_utf8(a) + encode_utf8(b));
    }
}

/// One character further on, the byte offset grows by that character's encoded width,
/// which is between one and four bytes.
pub proof fn lemma_byte_pos_step(s: Seq<char>, i: int)
    requires
        0 <= i < s.len(),
    ensures
        byte_pos(s, i + 1) == byte_pos(s, i) + encode_scalar(s[i] as u32).len(),
        1 <= encode_scalar(s[i] as u32).len() <= 4,
{
    lemma_encode_utf8_append(s.take(i), seq![s[i]]);
    assert(s.take(i) + seq![s[i]] =~= s.take(i + 1));
    let one = seq![s[i]];
    assert(one[0] == s[i]);
    assert(one.drop_first() =~= Seq::<char>::empty());
    assert(encode_utf8(Seq::<char>::empty()) =~= Seq::<u8>::empty());
    assert(encode_utf8(one) =~= encode_scalar(s[i] as u32) + encode_utf8(one.drop_first()));
    assert(encode_utf8(one) =~= encode_scalar(s[i] as u32));
}

/// Byte offsets grow strictly with the character index.
pub proof fn lemma_byte_pos_increasing(s: Seq<char>, i: int, j: int)
    requires
        0 <= i <= j <= s.len(),
    ensures
        i < j ==> byte_pos(s, i) < byte_pos(s, j),
        i == j ==> byte_pos(s, i) == byte_pos(s, j),
    decreases j - i,
{
    if i < j {
        lemma_byte_pos_increasing(s, i, j - 1);
        lemma_byte_pos_step(s, j - 1);
    }
}

/// The whole text ends at its encoded length.
pub proof fn lemma_byte_pos_end(s: Seq<char>)
    ensures
        byte_pos(s, s.len() as int) == encode_utf8(s).len(),
{
    assert(s.take(s.len() as int) =~= s);
}

/// A character boundary of the encoding of `s` is the byte offset of some character index.
pub proof fn lemma_char_boundary_pos(s: Seq<char>, idx: int)
    requires
        is_char_boundary(encode_utf8(s), idx),
    ensures
        exists|i: int| 0 <= i <= s.len() && #[trigger] byte_pos(s, i) == idx,
    decreases s.len(),
{
    let bytes = encode_utf8(s);
    vstd::utf8::encode_utf8_valid_utf8(s);
    if idx == 0 {
        assert(s.take(0) =~= Seq::<char>::empty());
        assert(byte_pos(s, 0) == 0);
    } else {
        assert(s.len() > 0) by {
            if s.len() == 0 {
                assert(bytes.len() == 0);
            }
        }
        vstd::utf8::encode_utf8_first_scalar(s);
        let w = encode_scalar(s[0] as u32).len() as int;
        let rest = s.drop_first();
        assert(bytes =~= encode_scalar(s[0] as u32) + encode_utf8(rest));
        assert(vstd::utf8::pop_first_scalar(bytes) =~= encode_utf8(rest));
        lemma_char_boundary_pos(rest, idx - w);
        let i2 = choose|i: int| 0 <= i <= rest.len() && #[trigger] byte_pos(rest, i) == idx - w;
        lemma_encode_utf8_append(seq![s[0]], rest.take(i2));
        assert(seq![s[0]] + rest.take(i2) =~= s.take(i2 + 1));
        lemma_byte_pos_step(s, 0);
        assert(s.take(0) =~= Seq::<char>::empty());
        assert(s.take(1) =~= seq![s[0]]);
        assert(byte_pos(s, i2 + 1) == idx);
    }
}

/// How many bytes the UTF-8 encoding of `c` takes.
pub fn utf8_width(c: char) -> (w: usize)
    ensures
        w == encode_scalar(c as u32).len(),
{
    proof {
        vstd::utf8::char_is_scalar(c);
    }
    let u = c as u32;
    if u <= 0x7f {
        1
    } else if u <= 0x7ff {
        2
    } else if u <= 0xffff {
        3
    } else {
        4
    }
}

/// The byte offset at which the character at `i` of `v` starts; `total` is the encoded
/// length of all of `v`.
pub fn byte_pos_of(v: &Vec<char>, i: usize, total: usize) -> (r: usize)
    requires
        i <= v.len(),
        total == byte_pos(v@, v@.len() as int),
    ensures
        r == byte_pos(v@, i as int),
{
    let mut k: usize = 0;
    let mut pos: usize = 0;
    proof {
        assert(v@.take(0) =~= Seq::<char>::empty());
    }
    while k < i
        invariant
            k <= i <= v.len(),
            total == byte_pos(v@, v@.len() as int),
            pos == byte_pos(v@, k as int),
        decreases i - k,
    {
        proof {
            lemma_byte_pos_step(v@, k as int);
            lemma_byte_pos_increasing(v@, k + 1, v@.len() as int);
        }
        pos = pos + utf8_width(v[k]);
        k = k + 1;
    }
    pos
}

} // verus!
