//! The layout hash: every property that affects a widget tree's layout,
//! written out as a sequence of words and digested by the toolkit's hasher.
use vstd::prelude::*;
use crate::geometry::Length;
use crate::widget::{Element, Kind};

verus! {

broadcast use vstd::std_specs::vec::group_vec_axioms;

/// What `iced_native::Hasher` gives for a sequence of bytes.
pub uninterp spec fn layout_digest(bytes: Seq<u8>) -> u64;

/// Relies on `iced_native::Hasher` (an `XxHash64` with its fixed default
/// seed): writing the bytes and finishing gives a value that depends on the
/// bytes alone.
#[verifier::external_body]
fn digest(bytes: &Vec<u8>) -> (r: u64)
    ensures
        r == layout_digest(bytes@),
{
    let mut hasher = iced_native::Hasher::default();
    std::hash::Hasher::write(&mut hasher, bytes.as_slice());
    std::hash::Hasher::finish(&hasher)
}

/// Byte `j` (from the least significant) of `w`.
pub open spec fn byte_of(w: u64, j: u64) -> u8 {
    ((w >> (8 * j)) & 0xff) as u8
}

/// The words written out as bytes, eight per word, least significant first,
/// so that the digest is the same on every machine.
pub open spec fn le_bytes(words: Seq<u64>) -> Seq<u8> {
    Seq::new((8 * words.len()) as nat, |i: int| byte_of(words[i / 8], (i % 8) as u64))
}

fn to_le_bytes(words: &Vec<u64>) -> (r: Vec<u8>)
    ensures
        r@ == le_bytes(words@),
{
    let mut out: Vec<u8> = Vec::new();
    let mut i: usize = 0;
    while i < words.len()
        invariant
            i <= words@.len(),
            out@.len() == 8 * i,
            forall|k: int| 0 <= k < 8 * i ==> out@[k] == byte_of(words@[k / 8], (k % 8) as u64),
        decreases words@.len() - i,
    {
        let w = words[i];
        let mut j: u64 = 0;
        while j < 8
            invariant
                i < words@.len(),
                w == words@[i as int],
                j <= 8,
                out@.len() == 8 * i + j,
                forall|k: int|
                    0 <= k < 8 * i + j ==> out@[k] == byte_of(words@[k / 8], (k % 8) as u64),
            decreases 8 - j,
        {
            out.push(((w >> (8 * j)) & 0xff) as u8);
            proof {
                let k = 8 * i + j;
                assert(k / 8 == i as int && k % 8 == j as int) by (nonlinear_arith)
                    requires k == 8 * i + j, 0 <= j < 8;
            }
            j = j + 1;
        }
        i = i + 1;
    }
    assert(out@ =~= le_bytes(words@));
    out
}

pub open spec fn kind_code(k: Kind) -> u64 {
    match k {
        Kind::Column => 0,
        Kind::Row => 1,
        Kind::Container => 2,
        Kind::Scrollable => 3,
        Kind::Button => 4,
        Kind::Text => 5,
        Kind::Checkbox => 6,
        Kind::TextInput => 7,
        Kind::Slider => 8,
        Kind::Image => 9,
    }
}

/// A sizing policy as two words: which policy, and its number of units.
pub open spec fn length_words(l: Length) -> Seq<u64> {
    match l {
        Length::Fill => seq![0u64, 0u64],
        Length::Shrink => seq![1u64, 0u64],
        Length::Units(u) => seq![2u64, u as u64],
    }
}

/// The words of a widget's own layout properties, then of its children.
pub open spec fn layout_key(e: Element) -> Seq<u64>
    decreases e, e.children@.len() + 1,
{
    own_words(e) + children_key(e, e.children@.len() as int)
}

/// The layout properties of `e` alone, in a fixed order.
pub open spec fn own_words(e: Element) -> Seq<u64> {
    seq![kind_code(e.kind)] + length_words(e.width) + length_words(e.height) + seq![
        e.content.width as u64,
        e.content.height as u64,
        e.spacing as u64,
        e.padding as u64,
        e.children@.len() as u64,
    ]
}

/// The keys of the first `k` children, one after another.
pub open spec fn children_key(e: Element, k: int) -> Seq<u64>
    decreases e, k,
{
    if k <= 0 || k > e.children@.len() {
        Seq::empty()
    } else {
        children_key(e, k - 1) + layout_key(e.children@[k - 1])
    }
}

/// The layout hash of a widget tree.
pub open spec fn spec_layout_hash(e: Element) -> u64 {
    layout_digest(le_bytes(layout_key(e)))
}

/// Two descriptions that agree in every property that layout reads, at
/// every depth; they may differ in anything else (the messages they publish).
pub open spec fn same_layout_props(a: Element, b: Element) -> bool
    decreases a,
{
    &&& a.kind == b.kind
    &&& a.width == b.width
    &&& a.height == b.height
    &&& a.content == b.content
    &&& a.spacing == b.spacing
    &&& a.padding == b.padding
    &&& a.children@.len() == b.children@.len()
    &&& forall|i: int|
        0 <= i < a.children@.len() ==> same_layout_props(a.children@[i], #[trigger] b.children@[i])
}

fn push_length(key: &mut Vec<u64>, l: Length)
    ensures
        final(key)@ == old(key)@ + length_words(l),
{
    match l {
        Length::Fill => {
            key.push(0);
            key.push(0);
        },
        Length::Shrink => {
            key.push(1);
            key.push(0);
        },
        Length::Units(u) => {
            key.push(2);
            key.push(u as u64);
        },
    }
    assert(final(key)@ =~= old(key)@ + length_words(l));
}

fn kind_code_exec(k: Kind) -> (r: u64)
    ensures
        r == kind_code(k),
{
    match k {
        Kind::Column => 0,
        Kind::Row => 1,
        Kind::Container => 2,
        Kind::Scrollable => 3,
        Kind::Button => 4,
        Kind::Text => 5,
        Kind::Checkbox => 6,
        Kind::TextInput => 7,
        Kind::Slider => 8,
        Kind::Image => 9,
    }
}

impl Element {
    /// Appends the layout key of this widget and its children to `key`.
    pub fn hash_layout(&self, key: &mut Vec<u64>)
        ensures
            final(key)@ == old(key)@ + layout_key(*self),
        decreases self,
    {
        let ghost k0 = key@;
        key.push(kind_code_exec(self.kind));
        push_length(key, self.width);
        push_length(key, self.height);
        key.push(self.content.width as u64);
        key.push(self.content.height as u64);
        key.push(self.spacing as u64);
        key.push(self.padding as u64);
        key.push(self.children.len() as u64);
        assert(key@ =~= k0 + own_words(*self));
        let ghost k1 = key@;
        let mut i: usize = 0;
        while i < self.children.len()
            invariant
                i <= self.children@.len(),
                key@ == k1 + children_key(*self, i as int),
            decreases self.children@.len() - i,
        {
            let ghost before = key@;
            self.children[i].hash_layout(key);
            proof {
                vstd::seq_lib::lemma_concat_associative(
                    k1,
                    children_key(*self, i as int),
                    layout_key(self.children@[i as int]),
                );
            }
            i = i + 1;
        }
        proof {
            vstd::seq_lib::lemma_concat_associative(
                k0,
                own_words(*self),
                children_key(*self, self.children@.len() as int),
            );
        }
    }

    /// The layout hash of this widget tree.
    pub fn layout_hash(&self) -> (r: u64)
        ensures
            r == spec_layout_hash(*self),
    {
        let mut key: Vec<u64> = Vec::new();
        self.hash_layout(&mut key);
        assert(key@ =~= layout_key(*self));
        let bytes = to_le_bytes(&key);
        digest(&bytes)
    }
}

/// Descriptions that agree in every layout property have equal layout keys.
pub proof fn lemma_same_props_same_key(a: Element, b: Element)
    requires
        same_layout_props(a, b),
    ensures
        layout_key(a) == layout_key(b),
    decreases a, a.children@.len() + 1,
{
    lemma_same_props_children_key(a, b, a.children@.len() as int);
}

proof fn lemma_same_props_children_key(a: Element, b: Element, k: int)
    requires
        same_layout_props(a, b),
        0 <= k <= a.children@.len(),
    ensures
        children_key(a, k) == children_key(b, k),
    decreases a, k,
{
    if k > 0 {
        lemma_same_props_children_key(a, b, k - 1);
        assert(same_layout_props(a.children@[k - 1], b.children@[k - 1]));
        lemma_same_props_same_key(a.children@[k - 1], b.children@[k - 1]);
    }
}

/// Descriptions that differ only in properties that layout does not read
/// have the same layout hash.
pub proof fn lemma_hash_ignores_other_props(a: Element, b: Element)
    requires
        same_layout_props(a, b),
    ensures
        spec_layout_hash(a) == spec_layout_hash(b),
{
    lemma_same_props_same_key(a, b);
}

/// Changing a widget's width or height policy changes its layout key, so
/// the hashes differ unless the digest collides.
pub proof fn lemma_size_change_changes_key(a: Element, b: Element)
    requires
        a.width != b.width || a.height != b.height,
    ensures
        layout_key(a) != layout_key(b),
{
    let ka = layout_key(a);
    let kb = layout_key(b);
    assert(ka[1] == length_words(a.width)[0] && ka[2] == length_words(a.width)[1]);
    assert(kb[1] == length_words(b.width)[0] && kb[2] == length_words(b.width)[1]);
    assert(ka[3] == length_words(a.height)[0] && ka[4] == length_words(a.height)[1]);
    assert(kb[3] == length_words(b.height)[0] && kb[4] == length_words(b.height)[1]);
}

} // verus!
