//! Building blocks of the wire format: little-endian integers, fixed-width
//! items with a total order, and sets that are written in increasing order.

use vstd::prelude::*;

verus! {

/// The two bytes of a 16-bit integer, least significant first.
pub open spec fn le16(x: u16) -> Seq<u8> {
    seq![(x % 256) as u8, (x / 256) as u8]
}

/// The integer that two bytes stand for, least significant first.
pub open spec fn from_le16(bytes: Seq<u8>) -> u16 {
    (bytes[0] as int + 256 * (bytes[1] as int)) as u16
}

/// The four bytes of a 32-bit integer, least significant first.
pub open spec fn le32(x: u32) -> Seq<u8> {
    seq![
        (x % 256) as u8,
        ((x / 256) % 256) as u8,
        ((x / 65536) % 256) as u8,
        (x / 16777216) as u8,
    ]
}

/// The integer that four bytes stand for, least significant first.
pub open spec fn from_le32(bytes: Seq<u8>) -> u32 {
    (bytes[0] as int + 256 * (bytes[1] as int) + 65536 * (bytes[2] as int) + 16777216 * (
    bytes[3] as int)) as u32
}

/// Writing a 16-bit integer and reading it back gives the integer, and any
/// two bytes are the writing of what is read from them.
pub proof fn lemma_le16_round_trip(x: u16, two: Seq<u8>)
    ensures
        le16(x).len() == 2,
        from_le16(le16(x)) == x,
        two.len() == 2 ==> le16(from_le16(two)) == two,
{
    if two.len() == 2 {
        assert(le16(from_le16(two)) =~= two);
    }
}

/// Writing a 32-bit integer and reading it back gives the integer.
pub proof fn lemma_le32_round_trip(y: u32)
    ensures
        le32(y).len() == 4,
        from_le32(le32(y)) == y,
{
    let q1 = y / 256;
    let q2 = y / 65536;
    let q3 = y / 16777216;
    assert(q2 == q1 / 256);
    assert(q3 == q2 / 256);
    assert(y == 256 * q1 + y % 256);
    assert(q1 == 256 * q2 + q1 % 256);
    assert(q2 == 256 * q3 + q2 % 256);
}

/// Any four bytes are the writing of the integer that is read from them.
pub proof fn lemma_le32_canonical(four: Seq<u8>)
    requires
        four.len() == 4,
    ensures
        le32(from_le32(four)) == four,
{
    let b0 = four[0] as int;
    let b1 = four[1] as int;
    let b2 = four[2] as int;
    let b3 = four[3] as int;
    let v = b0 + 256 * b1 + 65536 * b2 + 16777216 * b3;
    assert(0 <= v < 0x1_0000_0000);
    assert(v % 256 == b0);
    assert(v / 256 == b1 + 256 * b2 + 65536 * b3);
    assert((v / 256) % 256 == b1);
    assert(v / 65536 == b2 + 256 * b3);
    assert((v / 65536) % 256 == b2);
    assert(v / 16777216 == b3);
    assert(le32(from_le32(four)) =~= four);
}

/// Appends the two bytes of `x`.
pub fn put_u16(x: u16, out: &mut Vec<u8>)
    ensures
        final(out)@ == old(out)@ + le16(x),
{
    out.push((x % 256) as u8);
    out.push((x / 256) as u8);
    assert(out@ =~= old(out)@ + le16(x));
}

/// Reads the 16-bit integer at `at`.
pub fn get_u16(bytes: &[u8], at: usize) -> (x: u16)
    requires
        at + 2 <= bytes@.len(),
    ensures
        x == from_le16(bytes@.subrange(at as int, at + 2)),
{
    let lo = bytes[at] as u16;
    let hi = bytes[at + 1] as u16;
    lo + 256 * hi
}

/// Appends the four bytes of `x`.
pub fn put_u32(x: u32, out: &mut Vec<u8>)
    ensures
        final(out)@ == old(out)@ + le32(x),
{
    out.push((x % 256) as u8);
    out.push(((x / 256) % 256) as u8);
    out.push(((x / 65536) % 256) as u8);
    out.push((x / 16777216) as u8);
    assert(out@ =~= old(out)@ + le32(x));
}

/// Reads the 32-bit integer at `at`.
pub fn get_u32(bytes: &[u8], at: usize) -> (x: u32)
    requires
        at + 4 <= bytes@.len(),
    ensures
        x == from_le32(bytes@.subrange(at as int, at + 4)),
{
    let b0 = bytes[at] as u32;
    let b1 = bytes[at + 1] as u32;
    let b2 = bytes[at + 2] as u32;
    let b3 = bytes[at + 3] as u32;
    b0 + 256 * b1 + 65536 * b2 + 16777216 * b3
}

/// `a` and `b` agree before position `k`, where `a` has the smaller byte.
pub open spec fn smaller_at(a: Seq<u8>, b: Seq<u8>, k: int) -> bool {
    &&& 0 <= k < a.len()
    &&& k < b.len()
    &&& a[k] < b[k]
    &&& forall|j: int| 0 <= j < k ==> a[j] == b[j]
}

/// The order of byte strings by their first differing byte.
pub open spec fn lex_less(a: Seq<u8>, b: Seq<u8>) -> bool {
    exists|k: int| smaller_at(a, b, k)
}

proof fn lemma_first_difference(a: Seq<u8>, b: Seq<u8>, i: int) -> (k: int)
    requires
        a.len() == b.len(),
        0 <= i <= a.len(),
        forall|j: int| 0 <= j < i ==> a[j] == b[j],
        !(a =~= b),
    ensures
        i <= k < a.len(),
        a[k] != b[k],
        forall|j: int| 0 <= j < k ==> a[j] == b[j],
    decreases a.len() - i,
{
    if i == a.len() {
        assert(a =~= b);
        i
    } else if a[i] != b[i] {
        i
    } else {
        lemma_first_difference(a, b, i + 1)
    }
}

/// Of two byte strings of one length, one comes before the other or they
/// are the same string; and no string comes before itself.
pub proof fn lemma_lex_total(a: Seq<u8>, b: Seq<u8>)
    requires
        a.len() == b.len(),
    ensures
        lex_less(a, b) || a == b || lex_less(b, a),
        !lex_less(a, a),
{
    if !(a =~= b) {
        let k = lemma_first_difference(a, b, 0);
        if a[k] < b[k] {
            assert(smaller_at(a, b, k));
        } else {
            assert(smaller_at(b, a, k));
        }
    }
}

/// The order of byte strings is transitive.
pub proof fn lemma_lex_transitive(a: Seq<u8>, b: Seq<u8>, c: Seq<u8>)
    requires
        lex_less(a, b),
        lex_less(b, c),
    ensures
        lex_less(a, c),
{
    let k1 = choose|k: int| smaller_at(a, b, k);
    let k2 = choose|k: int| smaller_at(b, c, k);
    if k1 <= k2 {
        assert(smaller_at(a, c, k1));
    } else {
        assert(smaller_at(a, c, k2));
    }
}

/// Appends the 32 bytes of an identifier.
pub fn put_bytes32(id: &[u8; 32], out: &mut Vec<u8>)
    ensures
        final(out)@ == old(out)@ + id@,
{
    let mut i: usize = 0;
    while i < 32
        invariant
            i <= 32,
            out@ == old(out)@ + id@.subrange(0, i as int),
        decreases 32 - i,
    {
        out.push(id[i]);
        i += 1;
        assert(out@ =~= old(out)@ + id@.subrange(0, i as int));
    }
    assert(id@.subrange(0, 32) =~= id@);
}

/// Reads the 32 bytes at `at`.
pub fn get_bytes32(bytes: &[u8], at: usize) -> (id: [u8; 32])
    requires
        at + 32 <= bytes@.len(),
    ensures
        id@ == bytes@.subrange(at as int, at + 32),
{
    let n = bytes.len();
    let mut id = [0u8;32];
    let mut i: usize = 0;
    while i < 32
        invariant
            i <= 32,
            n == bytes@.len(),
            at + 32 <= n,
            forall|j: int| 0 <= j < i ==> id@[j] == bytes@[at + j],
        decreases 32 - i,
    {
        id[i] = bytes[at + i];
        i += 1;
    }
    assert(id@ =~= bytes@.subrange(at as int, at + 32));
    id
}

/// Whether `a` comes before `b`, byte by byte.
pub fn bytes32_before(a: &[u8; 32], b: &[u8; 32]) -> (before: bool)
    ensures
        before == lex_less(a@, b@),
{
    let mut i: usize = 0;
    while i < 32
        invariant
            i <= 32,
            forall|j: int| 0 <= j < i ==> a@[j] == b@[j],
        decreases 32 - i,
    {
        if a[i] < b[i] {
            assert(smaller_at(a@, b@, i as int));
            return true;
        }
        if a[i] > b[i] {
            assert forall|k: int| !smaller_at(a@, b@, k) by {
                if smaller_at(a@, b@, k) {
                    if k > i {
                        assert(a@[i as int] == b@[i as int]);
                    }
                }
            }
            return false;
        }
        i += 1;
    }
    assert forall|k: int| !smaller_at(a@, b@, k) by {}
    false
}

/// An item that takes a fixed number of bytes on the wire and has a total
/// order, by which sets of it are written.
pub trait WireItem: Sized + Copy {
    /// The number of bytes of every item.
    spec fn width() -> nat;

    /// The bytes of the item.
    spec fn wire(self) -> Seq<u8>;

    /// The item that `width()` bytes stand for.
    spec fn unwire(bytes: Seq<u8>) -> Self;

    /// The order of the items.
    spec fn less(self, other: Self) -> bool;

    /// Every item has `width()` bytes, from which it is read back, and every
    /// `width()` bytes are the writing of the item read from them.
    proof fn lemma_wire(item: Self, bytes: Seq<u8>)
        ensures
            item.wire().len() == Self::width(),
            Self::unwire(item.wire()) == item,
            0 < Self::width() <= 36,
            bytes.len() == Self::width() ==> Self::unwire(bytes).wire() == bytes,
    ;

    /// The order is total and transitive, and no item comes before itself.
    proof fn lemma_order(a: Self, b: Self, c: Self)
        ensures
            a.less(b) || a == b || b.less(a),
            !a.less(a),
            a.less(b) && b.less(c) ==> a.less(c),
    ;

    /// The number of bytes of every item.
    fn size() -> (n: usize)
        ensures
            n == Self::width(),
    ;

    /// Appends the bytes of the item.
    fn put(&self, out: &mut Vec<u8>)
        ensures
            final(out)@ == old(out)@ + self.wire(),
    ;

    /// Reads the item at `at`.
    fn get(bytes: &[u8], at: usize) -> (item: Self)
        requires
            at + Self::width() <= bytes@.len(),
        ensures
            item == Self::unwire(bytes@.subrange(at as int, at + Self::width())),
    ;

    /// Whether the item comes before `other`.
    fn before(&self, other: &Self) -> (before: bool)
        ensures
            before == self.less(*other),
    ;
}

/// The type of a state transition, as the schema numbers it.
pub type TransitionType = u16;

impl WireItem for u16 {
    open spec fn width() -> nat {
        2
    }

    open spec fn wire(self) -> Seq<u8> {
        le16(self)
    }

    open spec fn unwire(bytes: Seq<u8>) -> Self {
        from_le16(bytes)
    }

    open spec fn less(self, other: Self) -> bool {
        self < other
    }

    proof fn lemma_wire(item: Self, bytes: Seq<u8>) {
        lemma_le16_round_trip(item, bytes);
    }

    proof fn lemma_order(a: Self, b: Self, c: Self) {
    }

    fn size() -> (n: usize) {
        2
    }

    fn put(&self, out: &mut Vec<u8>) {
        put_u16(*self, out)
    }

    fn get(bytes: &[u8], at: usize) -> (item: Self) {
        get_u16(bytes, at)
    }

    fn before(&self, other: &Self) -> (before: bool) {
        *self < *other
    }
}

/// The identifier of a transaction: the 32 bytes of its hash, in the order
/// in which they are written.
#[derive(Clone, Copy, PartialEq, Eq, PartialOrd, Ord, Hash, Debug)]
pub struct Txid(pub [u8; 32]);

/// The identifier of a contract: the 32 bytes of its hash.
#[derive(Clone, Copy, PartialEq, Eq, PartialOrd, Ord, Hash, Debug)]
pub struct ContractId(pub [u8; 32]);

/// A transaction output: the transaction and the output's number in it.
#[derive(Clone, Copy, PartialEq, Eq, PartialOrd, Ord, Hash, Debug)]
pub struct OutPoint {
    pub txid: Txid,
    pub vout: u32,
}

/// The identifier with the given bytes.
pub closed spec fn bytes32(bytes: Seq<u8>) -> [u8; 32] {
    choose|id: [u8; 32]| id@ == bytes
}

proof fn lemma_bytes32(id: [u8; 32], bytes: Seq<u8>)
    ensures
        id@.len() == 32,
        bytes32(id@) == id,
        bytes.len() == 32 ==> bytes32(bytes)@ == bytes,
{
    assert(bytes32(id@)@ == id@);
    assert(bytes32(id@) =~= id);
    if bytes.len() == 32 {
        let witness = vstd::array::spec_array_fill_for_copy_type::<u8, 32>(0u8);
        lemma_bytes32_exists(bytes, 0, witness);
    }
}

proof fn lemma_bytes32_exists(bytes: Seq<u8>, i: int, partial: [u8; 32])
    requires
        bytes.len() == 32,
        0 <= i <= 32,
        forall|j: int| 0 <= j < i ==> partial@[j] == bytes[j],
    ensures
        exists|id: [u8; 32]| id@ == bytes,
        bytes32(bytes)@ == bytes,
    decreases 32 - i,
{
    if i == 32 {
        assert(partial@ =~= bytes);
    } else {
        let next = vstd::array::spec_array_update(partial, i, bytes[i]);
        vstd::array::axiom_spec_array_update(partial, i, bytes[i]);
        lemma_bytes32_exists(bytes, i + 1, next);
    }
}

impl WireItem for Txid {
    open spec fn width() -> nat {
        32
    }

    open spec fn wire(self) -> Seq<u8> {
        self.0@
    }

    open spec fn unwire(bytes: Seq<u8>) -> Self {
        Txid(bytes32(bytes))
    }

    open spec fn less(self, other: Self) -> bool {
        lex_less(self.0@, other.0@)
    }

    proof fn lemma_wire(item: Self, bytes: Seq<u8>) {
        lemma_bytes32(item.0, bytes);
    }

    proof fn lemma_order(a: Self, b: Self, c: Self) {
        assert(a.0@.len() == 32 && b.0@.len() == 32);
        assert(a.less(a) == lex_less(a.0@, a.0@));
        assert(a.less(b) == lex_less(a.0@, b.0@));
        assert(b.less(a) == lex_less(b.0@, a.0@));
        assert(b.less(c) == lex_less(b.0@, c.0@));
        assert(a.less(c) == lex_less(a.0@, c.0@));
        lemma_lex_total(a.0@, b.0@);
        lemma_lex_total(a.0@, a.0@);
        if a.0@ == b.0@ {
            assert(a.0 =~= b.0);
        }
        if lex_less(a.0@, b.0@) && lex_less(b.0@, c.0@) {
            lemma_lex_transitive(a.0@, b.0@, c.0@);
        }
    }

    fn size() -> (n: usize) {
        32
    }

    fn put(&self, out: &mut Vec<u8>) {
        put_bytes32(&self.0, out)
    }

    fn get(bytes: &[u8], at: usize) -> (item: Self) {
        let id = get_bytes32(bytes, at);
        proof {
            lemma_bytes32(id, id@);
        }
        Txid(id)
    }

    fn before(&self, other: &Self) -> (before: bool) {
        bytes32_before(&self.0, &other.0)
    }
}

impl WireItem for ContractId {
    open spec fn width() -> nat {
        32
    }

    open spec fn wire(self) -> Seq<u8> {
        self.0@
    }

    open spec fn unwire(bytes: Seq<u8>) -> Self {
        ContractId(bytes32(bytes))
    }

    open spec fn less(self, other: Self) -> bool {
        lex_less(self.0@, other.0@)
    }

    proof fn lemma_wire(item: Self, bytes: Seq<u8>) {
        lemma_bytes32(item.0, bytes);
    }

    proof fn lemma_order(a: Self, b: Self, c: Self) {
        assert(a.0@.len() == 32 && b.0@.len() == 32);
        assert(a.less(a) == lex_less(a.0@, a.0@));
        assert(a.less(b) == lex_less(a.0@, b.0@));
        assert(b.less(a) == lex_less(b.0@, a.0@));
        assert(b.less(c) == lex_less(b.0@, c.0@));
        assert(a.less(c) == lex_less(a.0@, c.0@));
        lemma_lex_total(a.0@, b.0@);
        lemma_lex_total(a.0@, a.0@);
        if a.0@ == b.0@ {
            assert(a.0 =~= b.0);
        }
        if lex_less(a.0@, b.0@) && lex_less(b.0@, c.0@) {
            lemma_lex_transitive(a.0@, b.0@, c.0@);
        }
    }

    fn size() -> (n: usize) {
        32
    }

    fn put(&self, out: &mut Vec<u8>) {
        put_bytes32(&self.0, out)
    }

    fn get(bytes: &[u8], at: usize) -> (item: Self) {
        let id = get_bytes32(bytes, at);
        proof {
            lemma_bytes32(id, id@);
        }
        ContractId(id)
    }

    fn before(&self, other: &Self) -> (before: bool) {
        bytes32_before(&self.0, &other.0)
    }
}

impl WireItem for OutPoint {
    open spec fn width() -> nat {
        36
    }

    open spec fn wire(self) -> Seq<u8> {
        self.txid.0@ + le32(self.vout)
    }

    open spec fn unwire(bytes: Seq<u8>) -> Self {
        OutPoint {
            txid: Txid(bytes32(bytes.subrange(0, 32))),
            vout: from_le32(bytes.subrange(32, 36)),
        }
    }

    open spec fn less(self, other: Self) -> bool {
        lex_less(self.txid.0@, other.txid.0@) || (self.txid == other.txid && self.vout
            < other.vout)
    }

    proof fn lemma_wire(item: Self, bytes: Seq<u8>) {
        lemma_bytes32(item.txid.0, bytes.subrange(0, 32));
        lemma_le32_round_trip(item.vout);
        if bytes.len() == 36 {
            lemma_le32_canonical(bytes.subrange(32, 36));
        }
        assert(item.wire().subrange(0, 32) =~= item.txid.0@);
        assert(item.wire().subrange(32, 36) =~= le32(item.vout));
        if bytes.len() == 36 {
            assert(Self::unwire(bytes).wire() =~= bytes);
        }
    }

    proof fn lemma_order(a: Self, b: Self, c: Self) {
        Txid::lemma_order(a.txid, b.txid, c.txid);
        Txid::lemma_order(a.txid, a.txid, a.txid);
    }

    fn size() -> (n: usize) {
        36
    }

    fn put(&self, out: &mut Vec<u8>) {
        put_bytes32(&self.txid.0, out);
        put_u32(self.vout, out);
        assert(out@ =~= old(out)@ + self.wire());
    }

    fn get(bytes: &[u8], at: usize) -> (item: Self) {
        let n = bytes.len();
        let id = get_bytes32(bytes, at);
        let vout = get_u32(bytes, at + 32);
        proof {
            lemma_bytes32(id, id@);
            let whole = bytes@.subrange(at as int, at + 36);
            assert(whole.subrange(0, 32) =~= bytes@.subrange(at as int, at + 32));
            assert(whole.subrange(32, 36) =~= bytes@.subrange(at + 32, at + 36));
        }
        OutPoint { txid: Txid(id), vout }
    }

    fn before(&self, other: &Self) -> (before: bool) {
        if bytes32_before(&self.txid.0, &other.txid.0) {
            true
        } else if bytes32_before(&other.txid.0, &self.txid.0) {
            proof {
                lemma_lex_total(self.txid.0@, self.txid.0@);
                if self.txid == other.txid {
                    assert(lex_less(self.txid.0@, self.txid.0@));
                }
            }
            false
        } else {
            proof {
                Txid::lemma_order(self.txid, other.txid, other.txid);
            }
            self.vout < other.vout
        }
    }
}

/// Each item comes before the next.
pub open spec fn increasing<T: WireItem>(items: Seq<T>) -> bool {
    forall|i: int, j: int|
        0 <= i && j == i + 1 && j < items.len() ==> (#[trigger] items[i]).less(#[trigger] items[j])
}

/// In an increasing sequence every item comes before all later ones, so no
/// item occurs twice.
pub proof fn lemma_increasing_pairs<T: WireItem>(items: Seq<T>, i: int, j: int)
    requires
        increasing(items),
        0 <= i < j < items.len(),
    ensures
        items[i].less(items[j]),
        items[i] != items[j],
    decreases j - i,
{
    if j > i + 1 {
        lemma_increasing_pairs(items, i, j - 1);
        assert(items[j - 1].less(items[j]));
        T::lemma_order(items[i], items[j - 1], items[j]);
    }
    T::lemma_order(items[i], items[i], items[i]);
}

/// A finite set of items, kept in increasing order: the order in which the
/// items are written to the wire.
#[derive(PartialEq, Eq, PartialOrd, Ord, Hash, Debug)]
pub struct SortedSet<T: WireItem> {
    items: Vec<T>,
}

impl<T: WireItem> Clone for SortedSet<T> {
    fn clone(&self) -> (copy: Self)
        ensures
            copy@ == self@,
    {
        proof {
            use_type_invariant(self);
        }
        let mut items: Vec<T> = Vec::new();
        let mut i: usize = 0;
        while i < self.items.len()
            invariant
                i <= self.items@.len(),
                items@ == self.items@.subrange(0, i as int),
            decreases self.items@.len() - i,
        {
            items.push(self.items[i]);
            i += 1;
            assert(items@ =~= self.items@.subrange(0, i as int));
        }
        assert(items@ =~= self.items@);
        SortedSet { items }
    }
}

impl<T: WireItem> View for SortedSet<T> {
    type V = Seq<T>;

    /// The items in increasing order.
    closed spec fn view(&self) -> Seq<T> {
        self.items@
    }
}

impl<T: WireItem> SortedSet<T> {
    #[verifier::type_invariant]
    closed spec fn inv(self) -> bool {
        increasing(self.items@)
    }

    /// The empty set.
    pub fn new() -> (set: Self)
        ensures
            set@ == Seq::<T>::empty(),
    {
        SortedSet { items: Vec::new() }
    }

    /// The number of items. The items of every set are in increasing order.
    pub fn len(&self) -> (n: usize)
        ensures
            n == self@.len(),
            increasing(self@),
    {
        proof {
            use_type_invariant(self);
        }
        self.items.len()
    }

    /// The items in increasing order.
    pub fn as_vec(&self) -> (items: &Vec<T>)
        ensures
            items@ == self@,
            increasing(self@),
    {
        proof {
            use_type_invariant(self);
        }
        &self.items
    }

    /// The item at position `i` of the increasing order.
    pub fn get(&self, i: usize) -> (item: T)
        requires
            i < self@.len(),
        ensures
            item == self@[i as int],
    {
        self.items[i]
    }

    /// Whether `item` is in the set.
    pub fn contains(&self, item: &T) -> (found: bool)
        ensures
            found == self@.contains(*item),
    {
        let mut i: usize = 0;
        while i < self.items.len()
            invariant
                i <= self.items@.len(),
                forall|j: int| 0 <= j < i ==> self.items@[j] != *item,
            decreases self.items@.len() - i,
        {
            let here = self.items[i];
            if !here.before(item) && !item.before(&here) {
                proof {
                    T::lemma_order(here, *item, here);
                }
                return true;
            }
            proof {
                T::lemma_order(here, here, here);
            }
            i += 1;
        }
        false
    }

    /// Adds `item` at its place in the order. Answers whether the item is
    /// new to the set; a set that has the item already is left as it was.
    pub fn insert(&mut self, item: T) -> (fresh: bool)
        ensures
            fresh == !old(self)@.contains(item),
            forall|x: T| final(self)@.contains(x) <==> (x == item || old(self)@.contains(x)),
            !fresh ==> final(self)@ == old(self)@,
            fresh ==> final(self)@.len() == old(self)@.len() + 1,
            increasing(final(self)@),
    {
        proof {
            use_type_invariant(&*self);
        }
        let mut i: usize = 0;
        while i < self.items.len() && self.items[i].before(&item)
            invariant
                i <= self.items@.len(),
                self.items@ == old(self).items@,
                forall|j: int| 0 <= j < i ==> (#[trigger] self.items@[j]).less(item),
            decreases self.items@.len() - i,
        {
            i += 1;
        }
        let ghost before = self.items@;
        if i < self.items.len() && !item.before(&self.items[i]) {
            proof {
                T::lemma_order(before[i as int], item, item);
            }
            return false;
        }
        let mut items = Vec::new();
        core::mem::swap(&mut self.items, &mut items);
        items.insert(i, item);
        proof {
            let after = items@;
            assert(after == before.insert(i as int, item));
            assert forall|j: int| 0 <= j < before.len() implies before[j] != item by {
                if j < i {
                    T::lemma_order(before[j], before[j], before[j]);
                } else {
                    if j > i {
                        lemma_increasing_pairs(before, i as int, j);
                    }
                    T::lemma_order(item, before[i as int], before[j]);
                    T::lemma_order(item, item, item);
                }
            }
            assert forall|x: T| after.contains(x) <==> (x == item || before.contains(x)) by {
                if after.contains(x) {
                    let k = choose|k: int| 0 <= k < after.len() && after[k] == x;
                    if k < i {
                        assert(before[k] == x);
                    } else if k > i {
                        assert(before[k - 1] == x);
                    }
                }
                if before.contains(x) {
                    let k = choose|k: int| 0 <= k < before.len() && before[k] == x;
                    if k < i {
                        assert(after[k] == x);
                    } else {
                        assert(after[k + 1] == x);
                    }
                }
                assert(after[i as int] == item);
            }
            assert forall|a: int, b: int|
                0 <= a && b == a + 1 && b < after.len() implies (#[trigger] after[a]).less(
                #[trigger] after[b],
            ) by {
                if b < i {
                    assert(before[a].less(before[b]));
                } else if b == i {
                    assert(before[a].less(item));
                } else if a == i {
                    T::lemma_order(before[i as int], item, item);
                } else {
                    assert(before[a - 1].less(before[b - 1]));
                }
            }
        }
        self.items = items;
        true
    }

    /// Adds an item that comes after all items of the set.
    pub fn push_greatest(&mut self, item: T)
        requires
            old(self)@.len() == 0 || old(self)@.last().less(item),
        ensures
            final(self)@ == old(self)@.push(item),
    {
        proof {
            use_type_invariant(&*self);
        }
        let ghost before = self.items@;
        let mut items = Vec::new();
        core::mem::swap(&mut self.items, &mut items);
        items.push(item);
        proof {
            let after = items@;
            assert forall|a: int, b: int|
                0 <= a && b == a + 1 && b < after.len() implies (#[trigger] after[a]).less(
                #[trigger] after[b],
            ) by {
                if b < before.len() {
                    assert(before[a].less(before[b]));
                }
            }
        }
        self.items = items;
    }
}

} // verus!
