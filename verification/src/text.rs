//! Text as sequences of characters: searching, splitting and decimal notation.

use vstd::prelude::*;

verus! {

/// The first position at or after `from` at which `s` holds `c`, or the length of `s`.
pub open spec fn find(s: Seq<char>, c: char, from: int) -> int
    decreases s.len() - from,
{
    if from >= s.len() {
        s.len() as int
    } else if s[from] == c {
        from
    } else {
        find(s, c, from + 1)
    }
}

/// The pieces of `s` on the two sides of the first `c`, when there is one.
pub open spec fn split_first(s: Seq<char>, c: char) -> Option<(Seq<char>, Seq<char>)> {
    let p = find(s, c, 0);
    if p < s.len() {
        Some((s.subrange(0, p), s.subrange(p + 1, s.len() as int)))
    } else {
        None
    }
}

/// The pieces of `s` between its separators `c`: one more piece than there are separators.
pub open spec fn fields(s: Seq<char>, c: char) -> Seq<Seq<char>>
    decreases s.len(),
{
    let p = find(s, c, 0);
    if 0 <= p < s.len() {
        seq![s.subrange(0, p)] + fields(s.subrange(p + 1, s.len() as int), c)
    } else {
        seq![s]
    }
}

/// The pieces joined with `c` between neighbours.
pub open spec fn joined(pieces: Seq<Seq<char>>, c: char) -> Seq<char>
    decreases pieces.len(),
{
    if pieces.len() == 0 {
        seq![]
    } else if pieces.len() == 1 {
        pieces[0]
    } else {
        pieces[0] + seq![c] + joined(pieces.drop_first(), c)
    }
}

/// The decimal digit of `d`.
pub open spec fn digit_char(d: nat) -> char {
    if d == 0 {
        '0'
    } else if d == 1 {
        '1'
    } else if d == 2 {
        '2'
    } else if d == 3 {
        '3'
    } else if d == 4 {
        '4'
    } else if d == 5 {
        '5'
    } else if d == 6 {
        '6'
    } else if d == 7 {
        '7'
    } else if d == 8 {
        '8'
    } else {
        '9'
    }
}

/// Decimal notation of `n`, without leading zeros.
pub open spec fn decimal_text(n: nat) -> Seq<char>
    decreases n,
{
    if n < 10 {
        seq![digit_char(n)]
    } else {
        decimal_text(n / 10).push(digit_char(n % 10))
    }
}

/// What `find` returns is a position of `c` or the end, and no earlier position holds `c`.
pub proof fn find_is_first(s: Seq<char>, c: char, from: int)
    requires
        0 <= from <= s.len(),
    ensures
        from <= find(s, c, from) <= s.len(),
        find(s, c, from) < s.len() ==> s[find(s, c, from)] == c,
        forall|i: int| from <= i < find(s, c, from) ==> s[i] != c,
    decreases s.len() - from,
{
    if from < s.len() && s[from] != c {
        find_is_first(s, c, from + 1);
    }
}

/// Whether two texts hold the same characters.
pub fn same(a: &str, b: &str) -> (r: bool)
    ensures
        r == (a@ == b@),
{
    let x = a.as_bytes();
    let y = b.as_bytes();
    if x.len() != y.len() {
        return false;
    }
    for i in 0..x.len()
        invariant
            x@ == vstd::utf8::encode_utf8(a@),
            y@ == vstd::utf8::encode_utf8(b@),
            x@.len() == y@.len(),
            forall|j: int| 0 <= j < i ==> x@[j] == y@[j],
    {
        if x[i] != y[i] {
            return false;
        }
    }
    proof {
        assert(x@ =~= y@);
        vstd::utf8::encode_utf8_decode_utf8(a@);
        vstd::utf8::encode_utf8_decode_utf8(b@);
    }
    true
}

pub fn find_char(s: &str, c: char) -> (p: usize)
    ensures
        p == find(s@, c, 0),
{
    let n: usize = s.unicode_len();
    let mut p: usize = 0;
    for x in it: s.chars()
        invariant
            n == s@.len(),
            p == it.index(),
            it.seq() == s@,
            find(s@, c, 0) == find(s@, c, p as int),
    {
        if x == c {
            return p;
        }
        p += 1;
    }
    p
}

/// Splits a text around the first `c`.
pub fn split_once(s: &str, c: char) -> (r: Option<(String, String)>)
    ensures
        r is Some <==> split_first(s@, c) is Some,
        r matches Some(p) ==> split_first(s@, c) == Some((p.0@, p.1@)),
{
    let n: usize = s.unicode_len();
    let p: usize = find_char(s, c);
    proof {
        find_is_first(s@, c, 0);
    }
    if p < n {
        Some((s.substring_char(0, p).to_owned(), s.substring_char(p + 1, n).to_owned()))
    } else {
        None
    }
}

/// The contents of each text of a list.
pub open spec fn texts(v: Seq<String>) -> Seq<Seq<char>> {
    v.map_values(|s: String| s@)
}

/// Splits a text at every `c`.
pub fn split(s: &str, c: char) -> (r: Vec<String>)
    ensures
        texts(r@) == fields(s@, c),
{
    let mut pieces: Vec<String> = Vec::new();
    let mut rest: String = s.to_owned();
    loop
        invariant
            fields(s@, c) == texts(pieces@) + fields(rest@, c),
        decreases rest@.len(),
    {
        match split_once(rest.as_str(), c) {
            Some((head, tail)) => {
                proof {
                    find_is_first(rest@, c, 0);
                    assert(texts(pieces@.push(head)) =~= texts(pieces@).push(head@));
                    assert(texts(pieces@) + (seq![head@] + fields(tail@, c)) =~= texts(
                        pieces@,
                    ).push(head@) + fields(tail@, c));
                }
                pieces.push(head);
                rest = tail;
            },
            None => {
                proof {
                    find_is_first(rest@, c, 0);
                    assert(texts(pieces@.push(rest)) =~= texts(pieces@) + seq![rest@]);
                }
                pieces.push(rest);
                return pieces;
            },
        }
    }
}

/// Joins texts with a separator between neighbours.
pub fn join(pieces: &Vec<String>, c: &str) -> (r: String)
    requires
        c@.len() == 1,
    ensures
        r@ == joined(texts(pieces@), c@[0]),
{
    let mut out: String = String::new();
    let mut i: usize = pieces.len();
    assert(texts(pieces@).skip(i as int) =~= seq![]);
    while i > 0
        invariant
            i <= pieces@.len(),
            c@.len() == 1,
            out@ == joined(texts(pieces@).skip(i as int), c@[0]),
        decreases i,
    {
        let ghost rest = texts(pieces@).skip(i as int);
        i = i - 1;
        proof {
            let now = texts(pieces@).skip(i as int);
            assert(now.drop_first() =~= rest);
            assert(now[0] == pieces@[i as int]@);
            assert(c@ =~= seq![c@[0]]);
        }
        let head: String = pieces[i].clone();
        if i + 1 == pieces.len() {
            out = head;
        } else {
            out = head.concat(c).concat(out.as_str());
        }
    }
    assert(texts(pieces@).skip(0) =~= texts(pieces@));
    out
}

/// Whether a text begins with `prefix`.
pub open spec fn begins_with(s: Seq<char>, prefix: Seq<char>) -> bool {
    prefix.len() <= s.len() && s.subrange(0, prefix.len() as int) == prefix
}

/// What follows `prefix` in a text that begins with it.
pub fn strip_prefix(s: &str, prefix: &str) -> (r: Option<String>)
    ensures
        r is Some <==> begins_with(s@, prefix@),
        r matches Some(rest) ==> rest@ == s@.subrange(prefix@.len() as int, s@.len() as int),
{
    let n: usize = s.unicode_len();
    let k: usize = prefix.unicode_len();
    if k <= n && same(s.substring_char(0, k), prefix) {
        Some(s.substring_char(k, n).to_owned())
    } else {
        None
    }
}

/// One digit as text.
fn digit(d: u64) -> (s: String)
    requires
        d < 10,
    ensures
        s@ == seq![digit_char(d as nat)],
{
    proof {
        reveal_strlit("0");
        reveal_strlit("1");
        reveal_strlit("2");
        reveal_strlit("3");
        reveal_strlit("4");
        reveal_strlit("5");
        reveal_strlit("6");
        reveal_strlit("7");
        reveal_strlit("8");
        reveal_strlit("9");
    }
    let s = if d == 0 {
        "0"
    } else if d == 1 {
        "1"
    } else if d == 2 {
        "2"
    } else if d == 3 {
        "3"
    } else if d == 4 {
        "4"
    } else if d == 5 {
        "5"
    } else if d == 6 {
        "6"
    } else if d == 7 {
        "7"
    } else if d == 8 {
        "8"
    } else {
        "9"
    };
    assert(s@ =~= seq![digit_char(d as nat)]);
    s.to_owned()
}

/// Writes a number in decimal notation.
pub fn decimal(n: u64) -> (s: String)
    ensures
        s@ == decimal_text(n as nat),
    decreases n,
{
    if n < 10 {
        digit(n)
    } else {
        let head: String = decimal(n / 10);
        let s: String = head.concat(digit(n % 10).as_str());
        assert(s@ =~= decimal_text((n / 10) as nat).push(digit_char((n % 10) as nat)));
        s
    }
}

/// Pieces that do not hold the separator come back when what they were joined to is split.
pub proof fn split_undoes_join(pieces: Seq<Seq<char>>, c: char)
    requires
        pieces.len() > 0,
        forall|i: int, j: int|
            #![trigger pieces[i][j]]
            0 <= i < pieces.len() && 0 <= j < pieces[i].len() ==> pieces[i][j] != c,
    ensures
        fields(joined(pieces, c), c) == pieces,
    decreases pieces.len(),
{
    let s = joined(pieces, c);
    find_is_first(s, c, 0);
    if pieces.len() == 1 {
        assert(find(s, c, 0) == s.len()) by {
            if find(s, c, 0) < s.len() {
                assert(pieces[0][find(s, c, 0)] == c);
            }
        }
        assert(seq![s] =~= pieces);
    } else {
        let rest = pieces.drop_first();
        assert forall|i: int, j: int|
            #![trigger rest[i][j]]
            0 <= i < rest.len() && 0 <= j < rest[i].len() implies rest[i][j] != c by {
            assert(rest[i][j] == pieces[i + 1][j]);
        }
        split_undoes_join(rest, c);
        let tail = joined(rest, c);
        let n = pieces[0].len() as int;
        assert(s[n] == c);
        let p = find(s, c, 0);
        assert(p == n) by {
            if p < n {
                assert(s[p] == pieces[0][p]);
            }
        }
        assert(s.subrange(0, p) =~= pieces[0]);
        assert(s.subrange(p + 1, s.len() as int) =~= tail);
        assert(seq![pieces[0]] + rest =~= pieces);
    }
}

/// A name with a position behind it in square brackets.
pub open spec fn indexed_name(name: Seq<char>, i: nat) -> Seq<char> {
    name + "["@ + decimal_text(i) + "]"@
}

/// Puts a position in square brackets behind a name.
pub fn indexed(name: &str, i: usize) -> (s: String)
    ensures
        s@ == indexed_name(name@, i as nat),
{
    name.to_owned().concat("[").concat(decimal(i as u64).as_str()).concat("]")
}

/// The pieces of a text hold no separator, and joined they are the text again.
pub proof fn join_undoes_split(s: Seq<char>, c: char)
    ensures
        fields(s, c).len() > 0,
        joined(fields(s, c), c) == s,
        forall|i: int, j: int|
            #![trigger fields(s, c)[i][j]]
            0 <= i < fields(s, c).len() && 0 <= j < fields(s, c)[i].len() ==> fields(s, c)[i][j]
                != c,
    decreases s.len(),
{
    let p = find(s, c, 0);
    find_is_first(s, c, 0);
    let pieces = fields(s, c);
    if p < s.len() {
        let tail = s.subrange(p + 1, s.len() as int);
        join_undoes_split(tail, c);
        assert(pieces.drop_first() =~= fields(tail, c));
        assert(joined(pieces, c) =~= s);
        assert forall|i: int, j: int|
            #![trigger pieces[i][j]]
            0 <= i < pieces.len() && 0 <= j < pieces[i].len() implies pieces[i][j] != c by {
            if i > 0 {
                assert(pieces[i] == fields(tail, c)[i - 1]);
                assert(fields(tail, c)[i - 1][j] != c);
            }
        }
    }
}

/// Joined pieces stand one behind the other with one separator between neighbours.
pub proof fn joined_pieces_are_separated(a: Seq<char>, b: Seq<char>, d: Seq<char>, c: char)
    ensures
        joined(seq![], c) == Seq::<char>::empty(),
        joined(seq![a], c) == a,
        joined(seq![a, b], c) == a + seq![c] + b,
        joined(seq![a, b, d], c) == a + seq![c] + b + seq![c] + d,
{
    reveal_with_fuel(joined, 4);
    assert(seq![a, b].drop_first() =~= seq![b]);
    assert(seq![a, b, d].drop_first() =~= seq![b, d]);
    assert(seq![b, d].drop_first() =~= seq![d]);
    assert(joined(seq![a, b, d], c) =~= a + seq![c] + b + seq![c] + d);
}

/// A text is cut at the first separator, and the parts give it back.
pub proof fn cutting_is_at_the_first(s: Seq<char>, c: char)
    ensures
        split_first(s, c) matches Some((a, b)) ==> a + seq![c] + b == s && forall|i: int|
            0 <= i < a.len() ==> a[i] != c,
        split_first(s, c) is None <==> forall|i: int| 0 <= i < s.len() ==> s[i] != c,
{
    find_is_first(s, c, 0);
    if let Some((a, b)) = split_first(s, c) {
        assert(a + seq![c] + b =~= s);
        assert(s[find(s, c, 0)] == c);
    }
}

/// A text begins with another one exactly where it is that one with something behind it.
pub proof fn beginnings_are_followed(s: Seq<char>, prefix: Seq<char>)
    ensures
        begins_with(s, prefix) <==> exists|rest: Seq<char>| s == #[trigger] (prefix + rest),
{
    if begins_with(s, prefix) {
        assert(s =~= prefix + s.skip(prefix.len() as int));
    }
    if exists|rest: Seq<char>| s == #[trigger] (prefix + rest) {
        let rest = choose|rest: Seq<char>| s == #[trigger] (prefix + rest);
        assert(s.subrange(0, prefix.len() as int) =~= prefix);
    }
}

/// A position stands in square brackets behind the name.
pub proof fn positions_stand_in_brackets(name: Seq<char>, i: nat)
    ensures
        indexed_name(name, i) == name + seq!['['] + decimal_text(i) + seq![']'],
{
    reveal_strlit("[");
    reveal_strlit("]");
    assert("["@ =~= seq!['[']);
    assert("]"@ =~= seq![']']);
}

/// Decimal notation has no zero in front, unless it is that of zero.
pub proof fn decimal_notation_has_no_leading_zero(n: nat)
    ensures
        decimal_text(n).len() > 0,
        n > 0 ==> decimal_text(n)[0] != '0',
        n < 10 ==> decimal_text(n).len() == 1,
    decreases n,
{
    if n >= 10 {
        decimal_notation_has_no_leading_zero(n / 10);
        assert(decimal_text(n)[0] == decimal_text(n / 10)[0]);
    }
}

} // verus!
