//! Versioned cache directories.
//!
//! A cache directory is named by four decimal numbers with dots between
//! them. Names are ordered by the numbers they show, first number first,
//! whatever the length of the digit strings: `1.10.0.0` is later than
//! `1.9.9.9`.

use vstd::prelude::*;
use crate::error::ExportError;
use crate::text::{chars_of, is_digit, is_number, number_value};

verus! {

/// The pieces of `name` between its dots. A name without a dot is one
/// piece.
pub open spec fn pieces(name: Seq<char>) -> Seq<Seq<char>>
    decreases name.len(),
{
    if name.len() == 0 {
        seq![Seq::empty()]
    } else {
        let front = pieces(name.drop_last());
        if name.last() == '.' {
            front.push(Seq::empty())
        } else {
            front.update(front.len() - 1, front.last().push(name.last()))
        }
    }
}

/// `name` is four numbers with dots between them.
pub open spec fn is_version_name(name: Seq<char>) -> bool {
    &&& pieces(name).len() == 4
    &&& forall|k: int| 0 <= k < 4 ==> is_number(#[trigger] pieces(name)[k])
}

/// The four numbers of a version name.
pub open spec fn version_key(name: Seq<char>) -> Seq<nat> {
    Seq::new(4, |k: int| number_value(pieces(name)[k]))
}

/// The text that shows `parts` with a dot between each two of them.
pub open spec fn joined(parts: Seq<Seq<char>>) -> Seq<char>
    decreases parts.len(),
{
    if parts.len() == 0 {
        Seq::empty()
    } else if parts.len() == 1 {
        parts[0]
    } else {
        joined(parts.drop_last()) + seq!['.'] + parts.last()
    }
}

/// No character of `s` is a dot.
pub open spec fn dotless(s: Seq<char>) -> bool {
    forall|j: int| 0 <= j < s.len() ==> s[j] != '.'
}

/// `name` is the numbers `a`, `b`, `c` and `d` with dots between them.
pub open spec fn shows(name: Seq<char>, a: Seq<char>, b: Seq<char>, c: Seq<char>, d: Seq<char>) -> bool {
    &&& is_number(a) && is_number(b) && is_number(c) && is_number(d)
    &&& name == a + seq!['.'] + b + seq!['.'] + c + seq!['.'] + d
}

/// The pieces of a name hold no dot, there is at least one of them, and
/// with the dots put back they make the name again.
pub proof fn lemma_joined_pieces(name: Seq<char>)
    ensures
        pieces(name).len() >= 1,
        forall|k: int| 0 <= k < pieces(name).len() ==> dotless(#[trigger] pieces(name)[k]),
        joined(pieces(name)) == name,
    decreases name.len(),
{
    if name.len() > 0 {
        let front = pieces(name.drop_last());
        let all = pieces(name);
        lemma_joined_pieces(name.drop_last());
        assert(name == name.drop_last().push(name.last()));
        if name.last() == '.' {
            assert(all.drop_last() == front);
        } else if front.len() > 1 {
            assert(all.drop_last() == front.drop_last());
        }
    }
}

/// Text without a dot, put behind a name, makes its last piece longer and
/// changes no other.
proof fn lemma_pieces_of_longer(name: Seq<char>, more: Seq<char>)
    requires
        dotless(more),
    ensures
        pieces(name).len() >= 1,
        pieces(name + more) == pieces(name).update(pieces(name).len() - 1, pieces(name).last() + more),
    decreases more.len(),
{
    lemma_joined_pieces(name);
    let held = pieces(name);
    if more.len() == 0 {
        assert(name + more == name);
        assert(held.last() + more == held.last());
        assert(held.update(held.len() - 1, held.last()) == held);
    } else {
        let front = more.drop_last();
        lemma_pieces_of_longer(name, front);
        assert((name + more).drop_last() == name + front);
        assert((held.last() + front).push(more.last()) == held.last() + more);
    }
}

/// Parts without dots, shown with dots between them, are cut into the same
/// parts again.
pub proof fn lemma_pieces_of_joined(parts: Seq<Seq<char>>)
    requires
        parts.len() >= 1,
        forall|k: int| 0 <= k < parts.len() ==> dotless(#[trigger] parts[k]),
    ensures
        pieces(joined(parts)) == parts,
    decreases parts.len(),
{
    if parts.len() == 1 {
        lemma_pieces_of_longer(Seq::empty(), parts[0]);
        assert(Seq::<char>::empty() + parts[0] == parts[0]);
        assert(pieces(Seq::empty()) == seq![Seq::<char>::empty()]);
        assert(pieces(parts[0]) == parts);
    } else {
        let front = parts.drop_last();
        lemma_pieces_of_joined(front);
        let cut = joined(front) + seq!['.'];
        assert(cut.drop_last() == joined(front));
        assert(pieces(cut) == front.push(Seq::empty()));
        lemma_pieces_of_longer(cut, parts.last());
        assert(Seq::<char>::empty() + parts.last() == parts.last());
        assert(pieces(cut + parts.last()) == parts);
    }
}

/// A version name is a text that shows four numbers with dots between
/// them, and nothing else is.
pub proof fn lemma_version_name_shape(name: Seq<char>)
    ensures
        is_version_name(name) <==> exists|a: Seq<char>, b: Seq<char>, c: Seq<char>, d: Seq<char>|
            shows(name, a, b, c, d),
        forall|a: Seq<char>, b: Seq<char>, c: Seq<char>, d: Seq<char>| #[trigger]
            shows(name, a, b, c, d) ==> version_key(name) == seq![
                number_value(a),
                number_value(b),
                number_value(c),
                number_value(d),
            ],
{
    if is_version_name(name) {
        let parts = pieces(name);
        lemma_joined_pieces(name);
        lemma_joined_four(parts);
        assert(shows(name, parts[0], parts[1], parts[2], parts[3]));
    }
    assert forall|a: Seq<char>, b: Seq<char>, c: Seq<char>, d: Seq<char>| #[trigger]
        shows(name, a, b, c, d) implies is_version_name(name) && version_key(name) == seq![
        number_value(a),
        number_value(b),
        number_value(c),
        number_value(d),
    ] by {
        let parts = seq![a, b, c, d];
        assert forall|k: int| 0 <= k < parts.len() implies dotless(#[trigger] parts[k]) by {
            assert(is_number(parts[k]));
        }
        lemma_joined_four(parts);
        lemma_pieces_of_joined(parts);
        assert forall|k: int| 0 <= k < 4 implies is_number(#[trigger] pieces(name)[k]) by {}
    }
}

/// Four parts are shown one after the other with three dots between them.
proof fn lemma_joined_four(parts: Seq<Seq<char>>)
    requires
        parts.len() == 4,
    ensures
        joined(parts) == parts[0] + seq!['.'] + parts[1] + seq!['.'] + parts[2] + seq!['.'] + parts[3],
{
    let three = parts.drop_last();
    let two = three.drop_last();
    let one = two.drop_last();
    assert(joined(one) == parts[0]);
    assert(joined(two) == joined(one) + seq!['.'] + parts[1]);
    assert(joined(three) == joined(two) + seq!['.'] + parts[2]);
}

/// `a` comes before `b`: at the first number where they differ, `a` shows
/// the smaller one.
pub open spec fn key_less(a: Seq<nat>, b: Seq<nat>) -> bool {
    ||| a[0] < b[0]
    ||| a[0] == b[0] && a[1] < b[1]
    ||| a[0] == b[0] && a[1] == b[1] && a[2] < b[2]
    ||| a[0] == b[0] && a[1] == b[1] && a[2] == b[2] && a[3] < b[3]
}

/// The two keys show the same four numbers.
pub open spec fn key_same(a: Seq<nat>, b: Seq<nat>) -> bool {
    a[0] == b[0] && a[1] == b[1] && a[2] == b[2] && a[3] == b[3]
}

/// How one number stands to another.
#[derive(Clone, Copy, Debug, PartialEq, Eq, Structural)]
pub enum Rank {
    Below,
    Same,
    Above,
}

/// How `a` stands to `b`.
pub open spec fn rank_of(a: nat, b: nat) -> Rank {
    if a < b {
        Rank::Below
    } else if a == b {
        Rank::Same
    } else {
        Rank::Above
    }
}

/// A zero in front changes nothing.
proof fn lemma_leading_zero(s: Seq<char>)
    requires
        s.len() > 0,
        s[0] == '0',
    ensures
        number_value(s) == number_value(s.skip(1)),
    decreases s.len(),
{
    if s.len() == 1 {
        assert(s.drop_last() =~= Seq::<char>::empty());
        assert(s.skip(1) =~= Seq::<char>::empty());
    } else {
        lemma_leading_zero(s.drop_last());
        assert(s.drop_last().skip(1) =~= s.skip(1).drop_last());
    }
}

/// Zeros in front change nothing.
proof fn lemma_leading_zeros(s: Seq<char>, zeros: int)
    requires
        0 <= zeros <= s.len(),
        forall|i: int| 0 <= i < zeros ==> s[i] == '0',
    ensures
        number_value(s) == number_value(s.skip(zeros)),
    decreases zeros,
{
    if zeros == 0 {
        assert(s.skip(0) =~= s);
    } else {
        lemma_leading_zero(s);
        lemma_leading_zeros(s.skip(1), zeros - 1);
        assert(s.skip(1).skip(zeros - 1) =~= s.skip(zeros));
    }
}

/// Of two digit strings of one length, the one with the smaller digit at
/// the first place where they differ shows the smaller number.
proof fn lemma_first_difference(a: Seq<char>, b: Seq<char>, at: int)
    requires
        a.len() == b.len(),
        0 <= at < a.len(),
        forall|i: int| 0 <= i < a.len() ==> is_digit(#[trigger] a[i]),
        forall|i: int| 0 <= i < b.len() ==> is_digit(#[trigger] b[i]),
        forall|i: int| 0 <= i < at ==> a[i] == b[i],
        a[at] < b[at],
    ensures
        number_value(a) < number_value(b),
    decreases a.len(),
{
    let n = a.len() as int;
    if at == n - 1 {
        assert(a.drop_last() =~= b.drop_last());
    } else {
        lemma_first_difference(a.drop_last(), b.drop_last(), at);
    }
}

/// Digit strings that agree everywhere show the same number.
proof fn lemma_same_digits(a: Seq<char>, b: Seq<char>)
    requires
        a.len() == b.len(),
        forall|i: int| 0 <= i < a.len() ==> a[i] == b[i],
    ensures
        number_value(a) == number_value(b),
{
    assert(a =~= b);
}

/// A digit string that is shorter than another one, which does not start
/// with a zero, shows the smaller number.
proof fn lemma_shorter_is_less(a: Seq<char>, b: Seq<char>)
    requires
        a.len() < b.len(),
        forall|i: int| 0 <= i < a.len() ==> is_digit(#[trigger] a[i]),
        forall|i: int| 0 <= i < b.len() ==> is_digit(#[trigger] b[i]),
        b[0] != '0',
    ensures
        number_value(a) < number_value(b),
{
    let pad = b.len() - a.len();
    let padded = Seq::new(pad as nat, |i: int| '0') + a;
    lemma_leading_zeros(padded, pad);
    assert(padded.skip(pad) =~= a);
    assert forall|i: int| 0 <= i < padded.len() implies is_digit(#[trigger] padded[i]) by {
        if i >= pad {
            assert(padded[i] == a[i - pad]);
        }
    }
    lemma_first_difference(padded, b, 0);
}

/// The index of the first digit of `digits` that is not a zero, or its
/// length if there is none.
fn skip_zeros(digits: &Vec<char>) -> (at: usize)
    ensures
        at <= digits.len(),
        forall|i: int| 0 <= i < at ==> digits[i] == '0',
        at < digits.len() ==> digits[at as int] != '0',
{
    let mut at: usize = 0;
    while at < digits.len() && digits[at] == '0'
        invariant
            at <= digits.len(),
            forall|i: int| 0 <= i < at ==> digits[i] == '0',
        decreases digits.len() - at,
    {
        at += 1;
    }
    at
}

/// Tells how the number that `a` shows stands to the one that `b` shows.
/// The digit strings may be of any length.
fn rank_numbers(a: &Vec<char>, b: &Vec<char>) -> (rank: Rank)
    requires
        is_number(a@),
        is_number(b@),
    ensures
        rank == rank_of(number_value(a@), number_value(b@)),
{
    let from_a = skip_zeros(a);
    let from_b = skip_zeros(b);
    let len_a = a.len() - from_a;
    let len_b = b.len() - from_b;
    let ghost tail_a = a@.skip(from_a as int);
    let ghost tail_b = b@.skip(from_b as int);
    proof {
        lemma_leading_zeros(a@, from_a as int);
        lemma_leading_zeros(b@, from_b as int);
        assert(forall|i: int| 0 <= i < tail_a.len() ==> is_digit(#[trigger] tail_a[i]));
        assert(forall|i: int| 0 <= i < tail_b.len() ==> is_digit(#[trigger] tail_b[i]));
    }
    if len_a < len_b {
        proof {
            lemma_shorter_is_less(tail_a, tail_b);
        }
        return Rank::Below;
    }
    if len_b < len_a {
        proof {
            lemma_shorter_is_less(tail_b, tail_a);
        }
        return Rank::Above;
    }
    let mut i: usize = 0;
    while i < len_a
        invariant
            i <= len_a,
            len_a == len_b,
            len_a == a.len() - from_a,
            len_b == b.len() - from_b,
            tail_a == a@.skip(from_a as int),
            tail_b == b@.skip(from_b as int),
            forall|k: int| 0 <= k < tail_a.len() ==> is_digit(#[trigger] tail_a[k]),
            forall|k: int| 0 <= k < tail_b.len() ==> is_digit(#[trigger] tail_b[k]),
            forall|k: int| 0 <= k < i ==> tail_a[k] == tail_b[k],
            number_value(a@) == number_value(tail_a),
            number_value(b@) == number_value(tail_b),
        decreases len_a - i,
    {
        let x = a[from_a + i];
        let y = b[from_b + i];
        if x < y {
            proof {
                lemma_first_difference(tail_a, tail_b, i as int);
            }
            return Rank::Below;
        }
        if y < x {
            proof {
                lemma_first_difference(tail_b, tail_a, i as int);
            }
            return Rank::Above;
        }
        i += 1;
    }
    proof {
        lemma_same_digits(tail_a, tail_b);
    }
    Rank::Same
}

/// The four numbers of a cache directory name, each as its digit string.
#[derive(Debug)]
pub struct CacheVersion {
    parts: Vec<Vec<char>>,
}

impl CacheVersion {
    /// There are four parts, each a number.
    pub closed spec fn wf(&self) -> bool {
        &&& self.parts.len() == 4
        &&& forall|k: int| 0 <= k < 4 ==> is_number(#[trigger] self.parts[k]@)
    }

    /// The four numbers.
    pub closed spec fn key(&self) -> Seq<nat> {
        Seq::new(4, |k: int| number_value(self.parts[k]@))
    }

    /// Reads a directory name. A name that is not four numbers with dots
    /// between them gives `None`.
    pub fn parse(name: &str) -> (version: Option<CacheVersion>)
        ensures
            version is Some <==> is_version_name(name@),
            version matches Some(v) ==> v.wf() && v.key() == version_key(name@),
    {
        let chars = chars_of(name);
        let mut parts: Vec<Vec<char>> = Vec::new();
        let mut current: Vec<char> = Vec::new();
        let mut i: usize = 0;
        while i < chars.len()
            invariant
                i <= chars.len(),
                chars@ == name@,
                pieces(name@.take(i as int)).len() == parts.len() + 1,
                forall|k: int|
                    0 <= k < parts.len() ==> (#[trigger] parts[k])@ == pieces(name@.take(i as int))[k],
                current@ == pieces(name@.take(i as int)).last(),
                forall|k: int| 0 <= k < i ==> is_digit(#[trigger] name@[k]) || name@[k] == '.',
                forall|k: int, j: int|
                    0 <= k < parts.len() && 0 <= j < parts[k].len() ==> is_digit(#[trigger] parts[k]@[j]),
                forall|j: int| 0 <= j < current.len() ==> is_digit(#[trigger] current@[j]),
            decreases chars.len() - i,
        {
            let c = chars[i];
            proof {
                let next = name@.take(i + 1);
                assert(next.drop_last() == name@.take(i as int));
            }
            if c == '.' {
                parts.push(current);
                current = Vec::new();
            } else if '0' <= c && c <= '9' {
                current.push(c);
            } else {
                proof {
                    lemma_pieces_hold_every_char(name@, i as int);
                }
                return None;
            }
            i += 1;
        }
        assert(name@.take(i as int) == name@);
        let ghost completed = parts@;
        parts.push(current);
        assert forall|k: int| 0 <= k < parts.len() implies (#[trigger] parts[k])@ == pieces(name@)[k] by {
            if k < completed.len() {
                assert(parts[k] == completed[k]);
            }
        }
        if parts.len() != 4 {
            return None;
        }
        let mut k: usize = 0;
        while k < 4
            invariant
                k <= 4,
                parts.len() == 4,
                pieces(name@).len() == 4,
                forall|j: int| 0 <= j < 4 ==> (#[trigger] parts[j])@ == pieces(name@)[j],
                forall|j: int| 0 <= j < k ==> parts[j].len() > 0,
            decreases 4 - k,
        {
            if parts[k].len() == 0 {
                return None;
            }
            k += 1;
        }
        let version = CacheVersion { parts };
        proof {
            assert forall|k: int| 0 <= k < 4 implies is_number(#[trigger] pieces(name@)[k]) by {
                assert(version.parts[k]@ == pieces(name@)[k]);
            }
        }
        Some(version)
    }

    /// Tells how this version stands to `other`: `Below` where it is the
    /// earlier one.
    pub fn rank(&self, other: &CacheVersion) -> (rank: Rank)
        requires
            self.wf(),
            other.wf(),
        ensures
            rank == Rank::Below <==> key_less(self.key(), other.key()),
            rank == Rank::Same <==> key_same(self.key(), other.key()),
            rank == Rank::Above <==> key_less(other.key(), self.key()),
    {
        let mut k: usize = 0;
        while k < 4
            invariant
                k <= 4,
                self.wf(),
                other.wf(),
                forall|j: int| 0 <= j < k ==> self.key()[j] == other.key()[j],
            decreases 4 - k,
        {
            let r = rank_numbers(&self.parts[k], &other.parts[k]);
            match r {
                Rank::Same => {},
                _ => {
                    return r;
                },
            }
            k += 1;
        }
        Rank::Same
    }
}

/// A character that is no dot stands in one of the pieces.
proof fn lemma_pieces_hold_every_char(name: Seq<char>, at: int)
    requires
        0 <= at < name.len(),
        name[at] != '.',
    ensures
        pieces(name).len() > 0,
        exists|k: int, j: int|
            0 <= k < pieces(name).len() && 0 <= j < pieces(name)[k].len() && pieces(name)[k][j] == name[at],
        !is_digit(name[at]) ==> !is_version_name(name),
    decreases name.len(),
{
    let front = pieces(name.drop_last());
    lemma_pieces_nonempty(name.drop_last());
    let all = pieces(name);
    if at == name.len() - 1 {
        let k = all.len() - 1;
        let j = all[k].len() - 1;
        assert(all[k][j] == name[at]);
    } else {
        lemma_pieces_hold_every_char(name.drop_last(), at);
        let (k, j) = choose|k: int, j: int|
            0 <= k < front.len() && 0 <= j < front[k].len() && front[k][j] == name.drop_last()[at];
        assert(all[k][j] == name[at]);
    }
    if !is_digit(name[at]) && all.len() == 4 {
        let (k, j) = choose|k: int, j: int|
            0 <= k < all.len() && 0 <= j < all[k].len() && all[k][j] == name[at];
        assert(!is_number(all[k]));
    }
}

/// Every name has at least one piece.
proof fn lemma_pieces_nonempty(name: Seq<char>)
    ensures
        pieces(name).len() > 0,
    decreases name.len(),
{
    if name.len() > 0 {
        lemma_pieces_nonempty(name.drop_last());
    }
}

/// `best` is the index of the latest version among `names`: its name is a
/// version name, no version name shows greater numbers, and every version
/// name before it shows smaller ones.
pub open spec fn is_latest(names: Seq<String>, best: int) -> bool {
    &&& 0 <= best < names.len()
    &&& is_version_name(names[best]@)
    &&& forall|i: int|
        0 <= i < names.len() && is_version_name((#[trigger] names[i])@) ==> !key_less(
            version_key(names[best]@),
            version_key(names[i]@),
        )
    &&& forall|i: int|
        0 <= i < best && is_version_name((#[trigger] names[i])@) ==> key_less(
            version_key(names[i]@),
            version_key(names[best]@),
        )
}

/// None of `names` is a version name.
pub open spec fn no_version(names: Seq<String>) -> bool {
    forall|i: int| 0 <= i < names.len() ==> !is_version_name((#[trigger] names[i])@)
}

/// Picks the latest version among directory names: the index of the name
/// that is a version name and shows the greatest numbers. Among names that
/// show the same numbers the first one is picked. Without any version name
/// the cache counts as missing.
pub fn select_latest(names: &Vec<String>) -> (picked: Result<usize, ExportError>)
    ensures
        match picked {
            Ok(best) => is_latest(names@, best as int),
            Err(e) => e == ExportError::CacheNotFound && no_version(names@),
        },
{
    let mut best: Option<(usize, CacheVersion)> = None;
    let mut i: usize = 0;
    while i < names.len()
        invariant
            i <= names.len(),
            match best {
                Some((at, v)) => {
                    &&& at < i
                    &&& v.wf()
                    &&& is_version_name(names[at as int]@)
                    &&& v.key() == version_key(names[at as int]@)
                    &&& forall|j: int|
                        0 <= j < i && is_version_name((#[trigger] names[j])@) ==> !key_less(
                            v.key(),
                            version_key(names[j]@),
                        )
                    &&& forall|j: int|
                        0 <= j < at && is_version_name((#[trigger] names[j])@) ==> key_less(
                            version_key(names[j]@),
                            v.key(),
                        )
                },
                None => forall|j: int| 0 <= j < i ==> !is_version_name((#[trigger] names[j])@),
            },
        decreases names.len() - i,
    {
        match CacheVersion::parse(names[i].as_str()) {
            Some(v) => {
                let better = match &best {
                    Some((_, held)) => {
                        match held.rank(&v) {
                            Rank::Below => true,
                            _ => false,
                        }
                    },
                    None => true,
                };
                if better {
                    best = Some((i, v));
                }
            },
            None => {},
        }
        i += 1;
    }
    match best {
        Some((at, _)) => Ok(at),
        None => Err(ExportError::CacheNotFound),
    }
}

} // verus!
