//! Attribute semantic names of glTF primitives and their interpretation.
use vstd::prelude::*;

verus! {

/// The meaning glTF gives to one vertex attribute of a primitive.
#[derive(Clone, Debug, PartialEq, Eq)]
pub enum Semantic {
    /// An application-specific attribute, named with a leading underscore;
    /// the name is kept without that underscore.
    Extras(String),
    /// XYZ vertex positions (`POSITION`).
    Positions,
    /// XYZ vertex normals (`NORMAL`).
    Normals,
    /// XYZW vertex tangents (`TANGENT`).
    Tangents,
    /// Vertex colors of the given set (`COLOR_n`).
    Colors(u32),
    /// Texture coordinates of the given set (`TEXCOORD_n`).
    TexCoords(u32),
    /// Joint indices of the given set (`JOINTS_n`).
    Joints(u32),
    /// Joint weights of the given set (`WEIGHTS_n`).
    Weights(u32),
}

/// The mathematical value of a [`Semantic`].
pub enum SemanticView {
    Extras(Seq<char>),
    Positions,
    Normals,
    Tangents,
    Colors(u32),
    TexCoords(u32),
    Joints(u32),
    Weights(u32),
}

impl View for Semantic {
    type V = SemanticView;

    open spec fn view(&self) -> SemanticView {
        match self {
            Semantic::Extras(name) => SemanticView::Extras(name@),
            Semantic::Positions => SemanticView::Positions,
            Semantic::Normals => SemanticView::Normals,
            Semantic::Tangents => SemanticView::Tangents,
            Semantic::Colors(n) => SemanticView::Colors(*n),
            Semantic::TexCoords(n) => SemanticView::TexCoords(*n),
            Semantic::Joints(n) => SemanticView::Joints(*n),
            Semantic::Weights(n) => SemanticView::Weights(*n),
        }
    }
}

impl Semantic {
    /// Whether `self` and `other` denote the same attribute.
    pub fn same_as(&self, other: &Semantic) -> (r: bool)
        ensures
            r == (self@ == other@),
    {
        match (self, other) {
            (Semantic::Extras(a), Semantic::Extras(b)) => a.eq(b),
            (Semantic::Positions, Semantic::Positions) => true,
            (Semantic::Normals, Semantic::Normals) => true,
            (Semantic::Tangents, Semantic::Tangents) => true,
            (Semantic::Colors(a), Semantic::Colors(b)) => *a == *b,
            (Semantic::TexCoords(a), Semantic::TexCoords(b)) => *a == *b,
            (Semantic::Joints(a), Semantic::Joints(b)) => *a == *b,
            (Semantic::Weights(a), Semantic::Weights(b)) => *a == *b,
            _ => false,
        }
    }

    /// A second value denoting the same attribute.
    pub fn duplicate(&self) -> (r: Semantic)
        ensures
            r@ == self@,
    {
        match self {
            Semantic::Extras(name) => Semantic::Extras(name.clone()),
            Semantic::Positions => Semantic::Positions,
            Semantic::Normals => Semantic::Normals,
            Semantic::Tangents => Semantic::Tangents,
            Semantic::Colors(n) => Semantic::Colors(*n),
            Semantic::TexCoords(n) => Semantic::TexCoords(*n),
            Semantic::Joints(n) => Semantic::Joints(*n),
            Semantic::Weights(n) => Semantic::Weights(*n),
        }
    }
}

/// A value read from a glTF document that may have failed validation.
#[derive(Clone, Debug, PartialEq, Eq)]
pub enum Checked<T> {
    /// The value was recognised.
    Valid(T),
    /// The value was not recognised.
    Invalid,
}

impl<T: View> View for Checked<T> {
    type V = Checked<T::V>;

    open spec fn view(&self) -> Checked<T::V> {
        match self {
            Checked::Valid(v) => Checked::Valid(v@),
            Checked::Invalid => Checked::Invalid,
        }
    }
}

/// Whether `c` is one of the ASCII decimal digits `0` to `9`.
pub open spec fn is_digit(c: char) -> bool {
    48 <= (c as u32) && (c as u32) <= 57
}

/// The numeric value of a decimal digit character.
pub open spec fn digit_value(c: char) -> nat {
    ((c as u32) - 48) as nat
}

/// Every character of `ds` is a decimal digit.
pub open spec fn all_digits(ds: Seq<char>) -> bool {
    forall|i: int| 0 <= i < ds.len() ==> #[trigger] is_digit(ds[i])
}

/// The number written in decimal by the digits `ds`, most significant first.
pub open spec fn decimal_value(ds: Seq<char>) -> nat
    decreases ds.len(),
{
    if ds.len() == 0 {
        0
    } else {
        decimal_value(ds.drop_last()) * 10 + digit_value(ds.last())
    }
}

/// The digits of an unsigned number: the text with one leading `+` removed.
pub open spec fn unsigned_digits(s: Seq<char>) -> Seq<char> {
    if s.len() > 0 && s[0] == '+' {
        s.skip(1)
    } else {
        s
    }
}

/// How a text reads as a `u32`: an optional `+`, then one or more decimal
/// digits whose value fits in 32 bits; anything else is rejected.
pub open spec fn spec_parse_u32(s: Seq<char>) -> Option<u32> {
    let ds = unsigned_digits(s);
    if ds.len() > 0 && all_digits(ds) && decimal_value(ds) <= u32::MAX {
        Some(decimal_value(ds) as u32)
    } else {
        None
    }
}

/// `s` begins with the characters `p`.
pub open spec fn has_prefix(s: Seq<char>, p: Seq<char>) -> bool {
    p.len() <= s.len() && s.take(p.len() as int) == p
}

pub open spec fn normal_name() -> Seq<char> {
    seq!['N', 'O', 'R', 'M', 'A', 'L']
}

pub open spec fn position_name() -> Seq<char> {
    seq!['P', 'O', 'S', 'I', 'T', 'I', 'O', 'N']
}

pub open spec fn tangent_name() -> Seq<char> {
    seq!['T', 'A', 'N', 'G', 'E', 'N', 'T']
}

pub open spec fn color_prefix() -> Seq<char> {
    seq!['C', 'O', 'L', 'O', 'R', '_']
}

pub open spec fn texcoord_prefix() -> Seq<char> {
    seq!['T', 'E', 'X', 'C', 'O', 'O', 'R', 'D', '_']
}

pub open spec fn joints_prefix() -> Seq<char> {
    seq!['J', 'O', 'I', 'N', 'T', 'S', '_']
}

pub open spec fn weights_prefix() -> Seq<char> {
    seq!['W', 'E', 'I', 'G', 'H', 'T', 'S', '_']
}

/// The set index that follows `prefix` in `s`, as a checked semantic built by `make`.
pub open spec fn indexed_semantic(
    s: Seq<char>,
    prefix: Seq<char>,
    make: spec_fn(u32) -> SemanticView,
) -> Checked<SemanticView> {
    match spec_parse_u32(s.skip(prefix.len() as int)) {
        Some(n) => Checked::Valid(make(n)),
        None => Checked::Invalid,
    }
}

/// How a glTF attribute name is interpreted: the three fixed names, then a
/// leading underscore for application-specific attributes, then the indexed
/// families `COLOR_n`, `TEXCOORD_n`, `JOINTS_n` and `WEIGHTS_n`; every other
/// name is invalid.
pub open spec fn spec_checked(s: Seq<char>) -> Checked<SemanticView> {
    if s == normal_name() {
        Checked::Valid(SemanticView::Normals)
    } else if s == position_name() {
        Checked::Valid(SemanticView::Positions)
    } else if s == tangent_name() {
        Checked::Valid(SemanticView::Tangents)
    } else if s.len() > 0 && s[0] == '_' {
        Checked::Valid(SemanticView::Extras(s.skip(1)))
    } else if has_prefix(s, color_prefix()) {
        indexed_semantic(s, color_prefix(), |n: u32| SemanticView::Colors(n))
    } else if has_prefix(s, texcoord_prefix()) {
        indexed_semantic(s, texcoord_prefix(), |n: u32| SemanticView::TexCoords(n))
    } else if has_prefix(s, joints_prefix()) {
        indexed_semantic(s, joints_prefix(), |n: u32| SemanticView::Joints(n))
    } else if has_prefix(s, weights_prefix()) {
        indexed_semantic(s, weights_prefix(), |n: u32| SemanticView::Weights(n))
    } else {
        Checked::Invalid
    }
}

/// A longer run of digits never has a smaller value than its prefix.
proof fn lemma_decimal_prefix_le(ds: Seq<char>, k: int)
    requires
        0 <= k <= ds.len(),
        all_digits(ds),
    ensures
        decimal_value(ds.take(k)) <= decimal_value(ds),
    decreases ds.len(),
{
    if k < ds.len() {
        assert(all_digits(ds.drop_last()));
        assert(ds.drop_last().take(k) =~= ds.take(k));
        lemma_decimal_prefix_le(ds.drop_last(), k);
    } else {
        assert(ds.take(k) =~= ds);
    }
}

/// Reads `cs[start..]` as an unsigned 32-bit decimal number.
fn parse_u32_from(cs: &Vec<char>, start: usize) -> (r: Option<u32>)
    requires
        start <= cs.len(),
    ensures
        r == spec_parse_u32(cs@.skip(start as int)),
{
    let ghost s = cs@.skip(start as int);
    let mut i = start;
    if i < cs.len() && cs[i] == '+' {
        i = i + 1;
    }
    let first = i;
    let ghost ds = unsigned_digits(s);
    assert(ds =~= cs@.skip(first as int));
    if first == cs.len() {
        return None;
    }
    let mut acc: u64 = 0;
    while i < cs.len()
        invariant
            first <= i <= cs.len(),
            first < cs.len(),
            ds =~= cs@.skip(first as int),
            s == cs@.skip(start as int),
            ds == unsigned_digits(s),
            all_digits(ds.take(i - first)),
            acc == decimal_value(ds.take(i - first)),
            acc <= u32::MAX,
        decreases cs.len() - i,
    {
        let c = cs[i];
        let code = c as u32;
        assert(ds[i - first] == c);
        if code < 48 || code > 57 {
            assert(!is_digit(ds[i - first]));
            assert(!all_digits(ds));
            return None;
        }
        let next: u64 = acc * 10 + (code - 48) as u64;
        proof {
            let k = i - first;
            assert(ds.take(k + 1).drop_last() =~= ds.take(k));
            assert(ds.take(k + 1).last() == c);
            assert(all_digits(ds.take(k + 1)));
            assert(decimal_value(ds.take(k + 1)) == next);
        }
        if next > 0xffff_ffff {
            proof {
                let k = i - first;
                if all_digits(ds) {
                    lemma_decimal_prefix_le(ds, k + 1);
                    assert(decimal_value(ds) > u32::MAX);
                }
            }
            return None;
        }
        acc = next;
        i = i + 1;
    }
    assert(ds.take(i - first) =~= ds);
    Some(acc as u32)
}

} // verus!

verus! {

/// The characters of `s`, in order.
fn chars_of(s: &str) -> (cs: Vec<char>)
    ensures
        cs@ == s@,
{
    let mut cs: Vec<char> = Vec::new();
    for c in it: s.chars()
        invariant
            cs@ == it.seq().take(it.index() as int),
    {
        cs.push(c);
    }
    cs
}

} // verus!

verus! {

/// Whether `cs` begins with the characters of `p`.
fn starts_with_chars(cs: &Vec<char>, p: &[char]) -> (r: bool)
    ensures
        r == has_prefix(cs@, p@),
{
    if p.len() > cs.len() {
        return false;
    }
    let mut i: usize = 0;
    while i < p.len()
        invariant
            i <= p.len() <= cs.len(),
            cs@.take(i as int) == p@.take(i as int),
        decreases p.len() - i,
    {
        if cs[i] != p[i] {
            assert(cs@.take(p.len() as int)[i as int] != p@[i as int]);
            return false;
        }
        assert(cs@.take(i + 1) =~= cs@.take(i as int).push(cs@[i as int]));
        assert(p@.take(i + 1) =~= p@.take(i as int).push(p@[i as int]));
        i = i + 1;
    }
    assert(p@.take(p.len() as int) =~= p@);
    true
}

/// Whether `cs` is exactly the characters of `p`.
fn equals_chars(cs: &Vec<char>, p: &[char]) -> (r: bool)
    ensures
        r == (cs@ == p@),
{
    if cs.len() != p.len() {
        return false;
    }
    let r = starts_with_chars(cs, p);
    assert(cs@.take(cs.len() as int) =~= cs@);
    r
}

/// Reads the set index after a prefix of `prefix_len` characters.
fn indexed(cs: &Vec<char>, prefix_len: usize, kind: u8) -> (r: Checked<Semantic>)
    requires
        prefix_len <= cs.len(),
        kind < 4,
    ensures
        r@ == (match spec_parse_u32(cs@.skip(prefix_len as int)) {
            Some(n) => Checked::Valid(
                if kind == 0 {
                    SemanticView::Colors(n)
                } else if kind == 1 {
                    SemanticView::TexCoords(n)
                } else if kind == 2 {
                    SemanticView::Joints(n)
                } else {
                    SemanticView::Weights(n)
                },
            ),
            None => Checked::Invalid,
        }),
{
    match parse_u32_from(cs, prefix_len) {
        Some(n) => Checked::Valid(
            if kind == 0 {
                Semantic::Colors(n)
            } else if kind == 1 {
                Semantic::TexCoords(n)
            } else if kind == 2 {
                Semantic::Joints(n)
            } else {
                Semantic::Weights(n)
            },
        ),
        None => Checked::Invalid,
    }
}

/// Interprets a glTF vertex attribute name.
pub trait SemanticCheck: Sized {
    /// Interprets the attribute name `s`.
    fn checked(s: &str) -> Checked<Self>;
}

impl SemanticCheck for Semantic {
    fn checked(s: &str) -> (r: Checked<Semantic>)
        ensures
            r@ == spec_checked(s@),
    {
        let cs = chars_of(s);
        let normal: [char; 6] = ['N', 'O', 'R', 'M', 'A', 'L'];
        let position: [char; 8] = ['P', 'O', 'S', 'I', 'T', 'I', 'O', 'N'];
        let tangent: [char; 7] = ['T', 'A', 'N', 'G', 'E', 'N', 'T'];
        let color: [char; 6] = ['C', 'O', 'L', 'O', 'R', '_'];
        let texcoord: [char; 9] = ['T', 'E', 'X', 'C', 'O', 'O', 'R', 'D', '_'];
        let joints: [char; 7] = ['J', 'O', 'I', 'N', 'T', 'S', '_'];
        let weights: [char; 8] = ['W', 'E', 'I', 'G', 'H', 'T', 'S', '_'];
        assert(normal@ =~= normal_name());
        assert(position@ =~= position_name());
        assert(tangent@ =~= tangent_name());
        assert(color@ =~= color_prefix());
        assert(texcoord@ =~= texcoord_prefix());
        assert(joints@ =~= joints_prefix());
        assert(weights@ =~= weights_prefix());
        if equals_chars(&cs, &normal) {
            Checked::Valid(Semantic::Normals)
        } else if equals_chars(&cs, &position) {
            Checked::Valid(Semantic::Positions)
        } else if equals_chars(&cs, &tangent) {
            Checked::Valid(Semantic::Tangents)
        } else if cs.len() > 0 && cs[0] == '_' {
            let name = s.substring_char(1, cs.len()).to_owned();
            Checked::Valid(Semantic::Extras(name))
        } else if starts_with_chars(&cs, &color) {
            indexed(&cs, 6, 0)
        } else if starts_with_chars(&cs, &texcoord) {
            indexed(&cs, 9, 1)
        } else if starts_with_chars(&cs, &joints) {
            indexed(&cs, 7, 2)
        } else if starts_with_chars(&cs, &weights) {
            indexed(&cs, 8, 3)
        } else {
            Checked::Invalid
        }
    }
}

} // verus!
