//! The wire format of texts and of lists of fixed-width items.
//!
//! A text is written as the number of its UTF-8 bytes in 16 bits and then
//! the bytes. A list is written as the number of its items in 16 bits and
//! then the items one after the other; the items of a set stand in
//! increasing order. Each format has one function that says what the bytes
//! of a value are and one that says what value stands at a position of a
//! byte string, if any.

use crate::wire::{from_le16, get_u16, increasing, le16, put_u16, SortedSet, WireItem};
use vstd::prelude::*;
use vstd::slice::{slice_subrange, slice_to_vec};
use vstd::utf8::{
    decode_utf8, encode_utf8, encode_utf8_decode_utf8, encode_utf8_valid_utf8, valid_utf8,
};

verus! {

/// The most bytes of a text and the most items of a list that the 16-bit
/// count in front of them can state.
pub const MAX_COUNT: usize = 0xFFFF;

/// The bytes of a text.
pub open spec fn text_wire(text: Seq<char>) -> Seq<u8> {
    le16(encode_utf8(text).len() as u16) + encode_utf8(text)
}

/// Whether the text is short enough to be written.
pub open spec fn text_fits(text: Seq<char>) -> bool {
    encode_utf8(text).len() <= MAX_COUNT
}

/// The text that stands at `at`, and the position behind it.
pub open spec fn parse_text(bytes: Seq<u8>, at: int) -> Option<(Seq<char>, int)> {
    if at + 2 > bytes.len() {
        None
    } else {
        let n = from_le16(bytes.subrange(at, at + 2)) as int;
        if at + 2 + n > bytes.len() {
            None
        } else {
            let body = bytes.subrange(at + 2, at + 2 + n);
            if valid_utf8(body) {
                Some((decode_utf8(body), at + 2 + n))
            } else {
                None
            }
        }
    }
}

/// A text that was written is read back, wherever it stands.
pub proof fn lemma_text_round_trip(bytes: Seq<u8>, at: int, text: Seq<char>)
    requires
        0 <= at,
        text_fits(text),
        at + text_wire(text).len() <= bytes.len(),
        bytes.subrange(at, at + text_wire(text).len()) == text_wire(text),
    ensures
        parse_text(bytes, at) == Some((text, at + text_wire(text).len())),
        text_wire(text).len() == 2 + encode_utf8(text).len(),
{
    let body = encode_utf8(text);
    let n = body.len() as u16;
    let whole = bytes.subrange(at, at + text_wire(text).len());
    crate::wire::lemma_le16_round_trip(n, le16(n));
    assert(bytes.subrange(at, at + 2) =~= whole.subrange(0, 2));
    assert(whole.subrange(0, 2) =~= le16(n));
    assert(bytes.subrange(at + 2, at + 2 + n) =~= whole.subrange(2, 2 + n));
    assert(whole.subrange(2, 2 + n) =~= body);
    encode_utf8_valid_utf8(text);
    encode_utf8_decode_utf8(text);
}

/// The text of valid UTF-8 bytes, or nothing where the bytes are no UTF-8.
/// This is `String::from_utf8`: it accepts exactly the well-formed byte
/// strings, and the text that it makes has the given bytes.
#[verifier::external_body]
fn string_from_utf8(bytes: Vec<u8>) -> (text: Option<String>)
    ensures
        text is Some <==> valid_utf8(bytes@),
        text matches Some(s) ==> encode_utf8(s@) == bytes@,
{
    String::from_utf8(bytes).ok()
}

/// Appends the bytes of `text`, unless the text is too long to be written.
pub fn put_text(text: &str, out: &mut Vec<u8>) -> (written: bool)
    ensures
        written == text_fits(text@),
        written ==> final(out)@ == old(out)@ + text_wire(text@),
        !written ==> final(out)@ == old(out)@,
{
    let bytes = text.as_bytes();
    let n = bytes.len();
    if n > MAX_COUNT {
        return false;
    }
    put_u16(n as u16, out);
    let mut i: usize = 0;
    while i < n
        invariant
            i <= n,
            n == bytes@.len(),
            out@ == old(out)@ + le16(n as u16) + bytes@.subrange(0, i as int),
        decreases n - i,
    {
        out.push(bytes[i]);
        i += 1;
        assert(out@ =~= old(out)@ + le16(n as u16) + bytes@.subrange(0, i as int));
    }
    assert(bytes@.subrange(0, n as int) =~= bytes@);
    assert(out@ =~= old(out)@ + text_wire(text@));
    true
}

/// Reads the text that stands at `at`.
pub fn get_text(bytes: &[u8], at: usize) -> (res: Option<(String, usize)>)
    requires
        at <= bytes@.len(),
    ensures
        match res {
            Some((text, next)) => parse_text(bytes@, at as int) == Some((text@, next as int))
                && next <= bytes@.len(),
            None => parse_text(bytes@, at as int) is None,
        },
{
    let len = bytes.len();
    if len - at < 2 {
        return None;
    }
    let n = get_u16(bytes, at) as usize;
    if len - at - 2 < n {
        return None;
    }
    let body = slice_to_vec(slice_subrange(bytes, at + 2, at + 2 + n));
    match string_from_utf8(body) {
        None => None,
        Some(text) => {
            proof {
                encode_utf8_decode_utf8(text@);
            }
            Some((text, at + 2 + n))
        },
    }
}

/// The bytes of the items, one after the other.
pub open spec fn items_wire<T: WireItem>(items: Seq<T>) -> Seq<u8>
    decreases items.len(),
{
    if items.len() == 0 {
        Seq::empty()
    } else {
        items_wire(items.drop_last()) + items.last().wire()
    }
}

/// The bytes of a list: the number of its items and the items.
pub open spec fn list_wire<T: WireItem>(items: Seq<T>) -> Seq<u8> {
    le16(items.len() as u16) + items_wire(items)
}

/// Whether the list is short enough to be written.
pub open spec fn list_fits<T: WireItem>(items: Seq<T>) -> bool {
    items.len() <= MAX_COUNT
}

/// The `count` items that stand at `at`, and the position behind them. Of an
/// `ordered` list each item must come after the one before it.
pub open spec fn parse_items<T: WireItem>(bytes: Seq<u8>, at: int, count: nat, ordered: bool)
    -> Option<(Seq<T>, int)>
    decreases count,
{
    if count == 0 {
        Some((Seq::empty(), at))
    } else {
        match parse_items::<T>(bytes, at, (count - 1) as nat, ordered) {
            None => None,
            Some((init, pos)) => {
                if pos + T::width() > bytes.len() {
                    None
                } else {
                    let item = T::unwire(bytes.subrange(pos, pos + T::width()));
                    if ordered && init.len() > 0 && !init.last().less(item) {
                        None
                    } else {
                        Some((init.push(item), pos + T::width()))
                    }
                }
            },
        }
    }
}

/// The list that stands at `at`, and the position behind it.
pub open spec fn parse_list<T: WireItem>(bytes: Seq<u8>, at: int, ordered: bool) -> Option<
    (Seq<T>, int),
> {
    if at + 2 > bytes.len() {
        None
    } else {
        parse_items::<T>(bytes, at + 2, from_le16(bytes.subrange(at, at + 2)) as nat, ordered)
    }
}

/// Items that were written are read back, wherever they stand.
pub proof fn lemma_items_round_trip<T: WireItem>(
    bytes: Seq<u8>,
    at: int,
    items: Seq<T>,
    ordered: bool,
)
    requires
        0 <= at,
        at + items_wire(items).len() <= bytes.len(),
        bytes.subrange(at, at + items_wire(items).len()) == items_wire(items),
        ordered ==> increasing(items),
    ensures
        parse_items::<T>(bytes, at, items.len(), ordered) == Some(
            (items, at + items_wire(items).len()),
        ),
    decreases items.len(),
{
    if items.len() > 0 {
        let init = items.drop_last();
        let last = items.last();
        let whole = items_wire(items);
        T::lemma_wire(last, Seq::empty());
        assert(whole.len() == items_wire(init).len() + T::width());
        let pos = at + items_wire(init).len();
        assert(bytes.subrange(at, pos) =~= whole.subrange(0, items_wire(init).len() as int));
        assert(whole.subrange(0, items_wire(init).len() as int) =~= items_wire(init));
        if ordered {
            assert forall|i: int, j: int|
                0 <= i && j == i + 1 && j < init.len() implies (#[trigger] init[i]).less(
                #[trigger] init[j],
            ) by {
                assert(items[i].less(items[j]));
            }
        }
        lemma_items_round_trip::<T>(bytes, at, init, ordered);
        assert(bytes.subrange(pos, pos + T::width()) =~= whole.subrange(
            items_wire(init).len() as int,
            whole.len() as int,
        ));
        assert(whole.subrange(items_wire(init).len() as int, whole.len() as int) =~= last.wire());
        if ordered && init.len() > 0 {
            assert(items[init.len() - 1].less(items[init.len() as int]));
        }
        assert(init.push(last) =~= items);
    }
}

/// A list that was written is read back, wherever it stands.
pub proof fn lemma_list_round_trip<T: WireItem>(
    bytes: Seq<u8>,
    at: int,
    items: Seq<T>,
    ordered: bool,
)
    requires
        0 <= at,
        list_fits(items),
        at + list_wire(items).len() <= bytes.len(),
        bytes.subrange(at, at + list_wire(items).len()) == list_wire(items),
        ordered ==> increasing(items),
    ensures
        parse_list::<T>(bytes, at, ordered) == Some((items, at + list_wire(items).len())),
        list_wire(items).len() == 2 + items_wire(items).len(),
{
    let n = items.len() as u16;
    let whole = bytes.subrange(at, at + list_wire(items).len());
    crate::wire::lemma_le16_round_trip(n, le16(n));
    assert(bytes.subrange(at, at + 2) =~= whole.subrange(0, 2));
    assert(whole.subrange(0, 2) =~= le16(n));
    assert(bytes.subrange(at + 2, at + 2 + items_wire(items).len()) =~= whole.subrange(
        2,
        whole.len() as int,
    ));
    assert(whole.subrange(2, whole.len() as int) =~= items_wire(items));
    lemma_items_round_trip::<T>(bytes, at + 2, items, ordered);
}

/// Appends the bytes of the list, unless the list is too long to be
/// written.
pub fn put_list<T: WireItem>(items: &Vec<T>, out: &mut Vec<u8>) -> (written: bool)
    ensures
        written == list_fits(items@),
        written ==> final(out)@ == old(out)@ + list_wire(items@),
        !written ==> final(out)@ == old(out)@,
{
    let n = items.len();
    if n > MAX_COUNT {
        return false;
    }
    put_u16(n as u16, out);
    let mut i: usize = 0;
    assert(items@.subrange(0, 0) =~= Seq::<T>::empty());
    while i < n
        invariant
            i <= n,
            n == items@.len(),
            out@ == old(out)@ + le16(n as u16) + items_wire(items@.subrange(0, i as int)),
        decreases n - i,
    {
        items[i].put(out);
        proof {
            let next = items@.subrange(0, i + 1);
            assert(next.drop_last() =~= items@.subrange(0, i as int));
            assert(next.last() == items@[i as int]);
            assert(out@ =~= old(out)@ + le16(n as u16) + items_wire(next));
        }
        i += 1;
    }
    assert(items@.subrange(0, n as int) =~= items@);
    assert(out@ =~= old(out)@ + list_wire(items@));
    true
}

/// Reads the list that stands at `at`, in the order in which it stands.
pub fn get_list<T: WireItem>(bytes: &[u8], at: usize) -> (res: Option<(Vec<T>, usize)>)
    requires
        at <= bytes@.len(),
    ensures
        match res {
            Some((items, next)) => parse_list::<T>(bytes@, at as int, false) == Some(
                (items@, next as int),
            ) && next <= bytes@.len(),
            None => parse_list::<T>(bytes@, at as int, false) is None,
        },
{
    let len = bytes.len();
    if len - at < 2 {
        return None;
    }
    let n = get_u16(bytes, at) as usize;
    let mut items: Vec<T> = Vec::new();
    let mut pos: usize = at + 2;
    let mut i: usize = 0;
    while i < n
        invariant
            i <= n,
            len == bytes@.len(),
            at + 2 <= pos <= len,
            n == from_le16(bytes@.subrange(at as int, at + 2)),
            parse_items::<T>(bytes@, at + 2, i as nat, false) == Some((items@, pos as int)),
        decreases n - i,
    {
        proof {
            T::lemma_wire(T::unwire(Seq::empty()), Seq::empty());
        }
        if len - pos < T::size() {
            proof {
                assert(((i + 1) as nat - 1) as nat == i as nat);
                assert(parse_items::<T>(bytes@, at + 2, (i + 1) as nat, false) is None);
                lemma_parse_stays_none::<T>(bytes@, at + 2, (i + 1) as nat, n as nat, false);
            }
            return None;
        }
        let item = T::get(bytes, pos);
        items.push(item);
        pos = pos + T::size();
        i += 1;
    }
    Some((items, pos))
}

/// Reads the set that stands at `at`. Its items must stand in increasing
/// order.
pub fn get_set<T: WireItem>(bytes: &[u8], at: usize) -> (res: Option<(SortedSet<T>, usize)>)
    requires
        at <= bytes@.len(),
    ensures
        match res {
            Some((items, next)) => parse_list::<T>(bytes@, at as int, true) == Some(
                (items@, next as int),
            ) && next <= bytes@.len(),
            None => parse_list::<T>(bytes@, at as int, true) is None,
        },
{
    let len = bytes.len();
    if len - at < 2 {
        return None;
    }
    let n = get_u16(bytes, at) as usize;
    let mut items: SortedSet<T> = SortedSet::new();
    let mut pos: usize = at + 2;
    let mut i: usize = 0;
    while i < n
        invariant
            i <= n,
            len == bytes@.len(),
            at + 2 <= pos <= len,
            n == from_le16(bytes@.subrange(at as int, at + 2)),
            parse_items::<T>(bytes@, at + 2, i as nat, true) == Some((items@, pos as int)),
        decreases n - i,
    {
        proof {
            T::lemma_wire(T::unwire(Seq::empty()), Seq::empty());
        }
        if len - pos < T::size() {
            proof {
                assert(((i + 1) as nat - 1) as nat == i as nat);
                assert(parse_items::<T>(bytes@, at + 2, (i + 1) as nat, true) is None);
                lemma_parse_stays_none::<T>(bytes@, at + 2, (i + 1) as nat, n as nat, true);
            }
            return None;
        }
        let item = T::get(bytes, pos);
        let count = items.len();
        if count > 0 && !items.get(count - 1).before(&item) {
            proof {
                assert(((i + 1) as nat - 1) as nat == i as nat);
                assert(parse_items::<T>(bytes@, at + 2, (i + 1) as nat, true) is None);
                lemma_parse_stays_none::<T>(bytes@, at + 2, (i + 1) as nat, n as nat, true);
            }
            return None;
        }
        items.push_greatest(item);
        pos = pos + T::size();
        i += 1;
    }
    Some((items, pos))
}

/// Where fewer items cannot be read, more cannot be read either.
proof fn lemma_parse_stays_none<T: WireItem>(
    bytes: Seq<u8>,
    at: int,
    fewer: nat,
    count: nat,
    ordered: bool,
)
    requires
        fewer <= count,
        parse_items::<T>(bytes, at, fewer, ordered) is None,
    ensures
        parse_items::<T>(bytes, at, count, ordered) is None,
    decreases count,
{
    if fewer < count {
        lemma_parse_stays_none::<T>(bytes, at, fewer, (count - 1) as nat, ordered);
    }
}

} // verus!
