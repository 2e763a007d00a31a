//! The player roster as it lies in a server's memory: a table of fixed-size slots, each
//! with an address and a name. This module decodes bytes that the caller has read; it
//! reads no memory itself.

use vstd::prelude::*;
use vstd::slice::slice_subrange;
use vstd::string::StringExecFns;
use vstd::utf8::{encode_scalar, encode_utf8, encode_utf8_decode_utf8, encode_utf8_valid_utf8};
use crate::decimal::{decimal, push_decimal};
use crate::server::views;
use crate::text::{from_chars, to_chars, trim, trimmed};
use crate::trusted::{lossy_text, utf8_lossy};

verus! {

/// Where, in the server's address space, the pointer to the slot table lies.
pub const PLAYER_BUFFER_POINTER_ADDR: u32 = 0x009D6A4C + 4;

/// How many slots the table has.
pub const SLOT_COUNT: usize = 32;

/// How many bytes one slot takes.
pub const SLOT_STRIDE: usize = 196;

/// Where in a slot the four bytes of the address lie.
pub const SLOT_IP_OFFSET: usize = 4;

/// Where in a slot the name begins; it runs to the slot's end or to the first zero byte.
pub const SLOT_NAME_OFFSET: usize = 8;

/// How many bytes a name can take.
pub const NAME_MAX: usize = SLOT_STRIDE - SLOT_NAME_OFFSET;

/// How many bytes the whole table takes.
pub const TABLE_SIZE: usize = SLOT_COUNT * SLOT_STRIDE;

/// One slot of the roster. An empty name means that nobody holds the slot.
#[derive(Debug, Clone)]
pub struct PlayerSlot {
    pub name: String,
    pub ip: String,
}

/// What a [`PlayerSlot`] holds, as plain values.
pub struct PlayerSlotView {
    pub name: Seq<char>,
    pub ip: Seq<char>,
}

impl View for PlayerSlot {
    type V = PlayerSlotView;

    open spec fn view(&self) -> PlayerSlotView {
        PlayerSlotView { name: self.name@, ip: self.ip@ }
    }
}

impl PlayerSlot {
    /// A slot with the given name and address.
    pub fn new(name: &str, ip: &str) -> (r: Self)
        ensures
            r@ == (PlayerSlotView { name: name@, ip: ip@ }),
    {
        PlayerSlot { name: String::from_str(name), ip: String::from_str(ip) }
    }

    /// A slot with the same name and address.
    pub fn copy(&self) -> (r: Self)
        ensures
            r@ == self@,
    {
        PlayerSlot { name: self.name.clone(), ip: self.ip.clone() }
    }

    /// Whether somebody holds the slot.
    pub fn is_occupied(&self) -> (r: bool)
        ensures
            r == (self@.name.len() > 0),
    {
        !self.name.as_str().is_empty()
    }
}

/// The number that four bytes stand for, least significant byte first.
pub open spec fn le_u32(bytes: Seq<u8>) -> int {
    bytes[0] as int + bytes[1] as int * 0x100 + bytes[2] as int * 0x1_0000 + bytes[3] as int
        * 0x100_0000
}

/// The address of the slot table, from the four bytes read at
/// [`PLAYER_BUFFER_POINTER_ADDR`]. None if these are not four bytes, or if they hold the
/// null pointer: then the server has no roster yet.
pub fn table_address(pointer_bytes: &[u8]) -> (r: Option<u32>)
    ensures
        r == if pointer_bytes@.len() == 4 && le_u32(pointer_bytes@) != 0 {
            Some(le_u32(pointer_bytes@) as u32)
        } else {
            None
        },
{
    if pointer_bytes.len() != 4 {
        return None;
    }
    let b0: u32 = pointer_bytes[0] as u32;
    let b1: u32 = pointer_bytes[1] as u32;
    let b2: u32 = pointer_bytes[2] as u32;
    let b3: u32 = pointer_bytes[3] as u32;
    let value: u32 = b0 + b1 * 0x100 + b2 * 0x1_0000 + b3 * 0x100_0000;
    if value == 0 {
        None
    } else {
        Some(value)
    }
}

/// Four bytes as a dotted address, in the order in which they lie.
pub open spec fn dotted(bytes: Seq<u8>) -> Seq<char> {
    decimal(bytes[0] as nat) + "."@ + decimal(bytes[1] as nat) + "."@ + decimal(bytes[2] as nat)
        + "."@ + decimal(bytes[3] as nat)
}

/// The bytes of `s` before its first zero byte; all of them if it has none.
pub open spec fn until_nul(s: Seq<u8>) -> Seq<u8>
    decreases s.len(),
{
    if s.len() == 0 || s[0] == 0 {
        Seq::empty()
    } else {
        seq![s[0]] + until_nul(s.skip(1))
    }
}

proof fn lemma_until_nul(s: Seq<u8>, k: int)
    requires
        0 <= k <= s.len(),
        forall|j: int| 0 <= j < k ==> #[trigger] s[j] != 0,
        k < s.len() ==> s[k] == 0,
    ensures
        until_nul(s) == s.take(k),
    decreases k,
{
    if k == 0 {
        assert(s.take(0) =~= Seq::<u8>::empty());
    } else {
        let t = s.skip(1);
        assert(forall|j: int| 0 <= j < k - 1 ==> t[j] == s[j + 1]);
        lemma_until_nul(t, k - 1);
        assert(s.take(k) =~= seq![s[0]] + t.take(k - 1));
    }
}

/// The slot that the bytes of one slot stand for.
pub open spec fn slot_of(bytes: Seq<u8>) -> PlayerSlotView {
    PlayerSlotView {
        name: trim(
            lossy_text(until_nul(bytes.subrange(SLOT_NAME_OFFSET as int, SLOT_STRIDE as int))),
        ),
        ip: dotted(bytes.subrange(SLOT_IP_OFFSET as int, SLOT_IP_OFFSET + 4)),
    }
}

/// The bytes of slot `i` in a table.
pub open spec fn slot_bytes(table: Seq<u8>, i: int) -> Seq<u8> {
    table.subrange(i * SLOT_STRIDE, (i + 1) * SLOT_STRIDE)
}

/// The roster that a table stands for: one slot after the other, vacant ones included.
pub open spec fn roster_of(table: Seq<u8>) -> Seq<PlayerSlotView> {
    Seq::new(SLOT_COUNT as nat, |i: int| slot_of(slot_bytes(table, i)))
}

/// The name that the bytes of a name field stand for, given the text that
/// `String::from_utf8_lossy` makes of the bytes before the first zero byte.
pub fn name_from(lossy: &str) -> (r: String)
    ensures
        r@ == trim(lossy@),
{
    let chars = to_chars(lossy);
    let inner = trimmed(&chars);
    from_chars(&inner)
}

fn address_text(bytes: &[u8]) -> (r: String)
    requires
        bytes@.len() == 4,
    ensures
        r@ == dotted(bytes@),
{
    let mut r = String::new();
    push_decimal(&mut r, bytes[0] as u64);
    r.append(".");
    push_decimal(&mut r, bytes[1] as u64);
    r.append(".");
    push_decimal(&mut r, bytes[2] as u64);
    r.append(".");
    push_decimal(&mut r, bytes[3] as u64);
    assert(r@ =~= dotted(bytes@));
    r
}

/// Decodes the bytes of one slot. None unless these are exactly [`SLOT_STRIDE`] bytes.
pub fn decode_slot(bytes: &[u8]) -> (r: Option<PlayerSlot>)
    ensures
        match r {
            Some(slot) => bytes@.len() == SLOT_STRIDE && slot@ == slot_of(bytes@),
            None => bytes@.len() != SLOT_STRIDE,
        },
{
    if bytes.len() != SLOT_STRIDE {
        return None;
    }
    let ip = address_text(slice_subrange(bytes, SLOT_IP_OFFSET, SLOT_IP_OFFSET + 4));
    let field = slice_subrange(bytes, SLOT_NAME_OFFSET, SLOT_STRIDE);
    let mut end: usize = 0;
    while end < field.len() && field[end] != 0
        invariant
            end <= field.len(),
            forall|j: int| 0 <= j < end ==> #[trigger] field@[j] != 0,
        decreases field.len() - end,
    {
        end += 1;
    }
    proof {
        lemma_until_nul(field@, end as int);
    }
    let lossy = utf8_lossy(slice_subrange(field, 0, end));
    Some(PlayerSlot { name: name_from(lossy.as_str()), ip })
}

/// Decodes the slot table. None unless `table` holds exactly [`TABLE_SIZE`] bytes: a
/// roster is whole or it is not there.
pub fn read_player_slots(table: &[u8]) -> (r: Option<Vec<PlayerSlot>>)
    ensures
        match r {
            Some(slots) => table@.len() == TABLE_SIZE && views(slots@) == roster_of(table@),
            None => table@.len() != TABLE_SIZE,
        },
{
    if table.len() != TABLE_SIZE {
        return None;
    }
    let mut slots: Vec<PlayerSlot> = Vec::new();
    let mut i: usize = 0;
    while i < SLOT_COUNT
        invariant
            i <= SLOT_COUNT,
            table@.len() == TABLE_SIZE,
            slots@.len() == i,
            forall|j: int| 0 <= j < i ==> (#[trigger] slots@[j])@ == slot_of(slot_bytes(table@, j)),
        decreases SLOT_COUNT - i,
    {
        let base: usize = i * SLOT_STRIDE;
        match decode_slot(slice_subrange(table, base, base + SLOT_STRIDE)) {
            Some(slot) => {
                slots.push(slot);
            },
            None => {
                return None;
            },
        }
        i += 1;
    }
    assert(views(slots@) =~= roster_of(table@));
    Some(slots)
}

/// The slots that somebody holds, in the order of the roster.
pub open spec fn occupied(roster: Seq<PlayerSlotView>) -> Seq<PlayerSlotView>
    decreases roster.len(),
{
    if roster.len() == 0 {
        Seq::empty()
    } else if roster.last().name.len() > 0 {
        occupied(roster.drop_last()).push(roster.last())
    } else {
        occupied(roster.drop_last())
    }
}

/// The connected players: the slots that somebody holds, in the order of the roster.
pub fn get_player_list(slots: &Vec<PlayerSlot>) -> (r: Vec<PlayerSlot>)
    ensures
        views(r@) == occupied(views(slots@)),
{
    let mut r: Vec<PlayerSlot> = Vec::new();
    let mut i: usize = 0;
    assert(views(slots@).take(0) =~= Seq::<PlayerSlotView>::empty());
    assert(views(r@) =~= Seq::<PlayerSlotView>::empty());
    while i < slots.len()
        invariant
            i <= slots.len(),
            views(r@) == occupied(views(slots@).take(i as int)),
        decreases slots.len() - i,
    {
        proof {
            let upto = views(slots@).take(i + 1);
            assert(upto.drop_last() =~= views(slots@).take(i as int));
            assert(upto.last() == slots@[i as int]@);
        }
        if slots[i].is_occupied() {
            let ghost before = views(r@);
            r.push(slots[i].copy());
            assert(views(r@) =~= before.push(slots@[i as int]@));
        }
        i += 1;
    }
    assert(views(slots@).take(slots.len() as int) =~= views(slots@));
    r
}

/// A list with the same slots.
pub fn copy_slots(slots: &Vec<PlayerSlot>) -> (r: Vec<PlayerSlot>)
    ensures
        views(r@) == views(slots@),
{
    let mut r: Vec<PlayerSlot> = Vec::new();
    let mut i: usize = 0;
    while i < slots.len()
        invariant
            i <= slots.len(),
            r@.len() == i,
            forall|j: int| 0 <= j < i ==> (#[trigger] r@[j])@ == slots@[j]@,
        decreases slots.len() - i,
    {
        r.push(slots[i].copy());
        i += 1;
    }
    assert(views(r@) =~= views(slots@));
    r
}

/// How many players are connected, beside the most that the profile admits.
pub fn get_player_count(slots: &Vec<PlayerSlot>, max_clients: u32) -> (r: (usize, u32))
    ensures
        r.0 == occupied(views(slots@)).len(),
        r.1 == max_clients,
{
    let list = get_player_list(slots);
    assert(views(list@).len() == list@.len());
    (list.len(), max_clients)
}

/// A roster has as many slots as the table; each slot is decided by its own bytes alone.
/// Of these, the connected players are exactly the slots with a name, in the order of the
/// table; a slot without a name is in the roster and not among the connected.
pub proof fn roster_law(table: Seq<u8>, i: int)
    requires
        table.len() == TABLE_SIZE,
        0 <= i < SLOT_COUNT,
    ensures
        roster_of(table).len() == SLOT_COUNT,
        roster_of(table)[i] == slot_of(slot_bytes(table, i)),
        roster_of(table)[i].name.len() > 0 <==> occupied(roster_of(table)).contains(
            roster_of(table)[i],
        ),
        occupied(roster_of(table)).len() + vacant(roster_of(table)) == SLOT_COUNT,
{
    lemma_occupied(roster_of(table));
}

/// The encoding of a character that is not the zero character has no zero byte.
proof fn lemma_scalar_has_no_zero(c: char)
    requires
        c != '\0',
    ensures
        forall|j: int|
            0 <= j < encode_scalar(c as u32).len() ==> #[trigger] encode_scalar(c as u32)[j] != 0,
{
    let v = c as u32;
    assert(v != 0);
    assert(v != 0 && v <= 0x7F ==> (v & 0x7F) as u8 != 0) by (bit_vector);
    assert((0xC0u8 | ((v >> 6) & 0x1F) as u8) != 0) by (bit_vector);
    assert((0xE0u8 | ((v >> 12) & 0x0F) as u8) != 0) by (bit_vector);
    assert((0xF0u8 | ((v >> 18) & 0x7) as u8) != 0) by (bit_vector);
    assert((0x80u8 | (v & 0x3F) as u8) != 0) by (bit_vector);
    assert((0x80u8 | ((v >> 6) & 0x3F) as u8) != 0) by (bit_vector);
    assert((0x80u8 | ((v >> 12) & 0x3F) as u8) != 0) by (bit_vector);
}

/// The encoding of a text without the zero character has no zero byte.
proof fn lemma_text_has_no_zero(text: Seq<char>)
    requires
        !text.contains('\0'),
    ensures
        forall|j: int| 0 <= j < encode_utf8(text).len() ==> #[trigger] encode_utf8(text)[j] != 0,
    decreases text.len(),
{
    if text.len() > 0 {
        let rest = text.drop_first();
        assert(text[0] != '\0');
        assert forall|k: int| 0 <= k < rest.len() implies rest[k] != '\0' by {
            assert(rest[k] == text[k + 1]);
        }
        lemma_scalar_has_no_zero(text[0]);
        lemma_text_has_no_zero(rest);
        let head = encode_scalar(text[0] as u32);
        let tail = encode_utf8(rest);
        assert(encode_utf8(text) == head + tail);
        assert forall|j: int| 0 <= j < encode_utf8(text).len() implies #[trigger] encode_utf8(
            text,
        )[j] != 0 by {
            if j < head.len() {
                assert(encode_utf8(text)[j] == head[j]);
            } else {
                assert(encode_utf8(text)[j] == tail[j - head.len()]);
            }
        }
    }
}

/// A name comes back as it was written. If the name field of a slot holds the UTF-8
/// encoding of a name without the zero character, and after it a zero byte unless the
/// name fills the field, then the slot's name is that name, trimmed.
pub proof fn name_round_trip(bytes: Seq<u8>, name: Seq<char>)
    requires
        bytes.len() == SLOT_STRIDE,
        !name.contains('\0'),
        encode_utf8(name).len() <= NAME_MAX,
        bytes.subrange(SLOT_NAME_OFFSET as int, SLOT_NAME_OFFSET + encode_utf8(name).len())
            == encode_utf8(name),
        encode_utf8(name).len() < NAME_MAX ==> bytes[SLOT_NAME_OFFSET + encode_utf8(name).len()]
            == 0,
    ensures
        slot_of(bytes).name == trim(name),
{
    let field = bytes.subrange(SLOT_NAME_OFFSET as int, SLOT_STRIDE as int);
    let code = encode_utf8(name);
    let k = code.len() as int;
    lemma_text_has_no_zero(name);
    assert forall|j: int| 0 <= j < k implies #[trigger] field[j] != 0 by {
        assert(field[j] == bytes.subrange(SLOT_NAME_OFFSET as int, SLOT_NAME_OFFSET + k)[j]);
    }
    lemma_until_nul(field, k);
    assert(field.take(k) =~= code);
    encode_utf8_valid_utf8(name);
    encode_utf8_decode_utf8(name);
}

/// How many slots of a roster nobody holds.
pub open spec fn vacant(roster: Seq<PlayerSlotView>) -> nat
    decreases roster.len(),
{
    if roster.len() == 0 {
        0
    } else if roster.last().name.len() > 0 {
        vacant(roster.drop_last())
    } else {
        vacant(roster.drop_last()) + 1
    }
}

/// The connected players are the named slots, no more and no fewer, in their order.
pub proof fn lemma_occupied(roster: Seq<PlayerSlotView>)
    ensures
        occupied(roster).len() + vacant(roster) == roster.len(),
        forall|k: int|
            0 <= k < occupied(roster).len() ==> (#[trigger] occupied(roster)[k]).name.len() > 0
                && roster.contains(occupied(roster)[k]),
        forall|i: int|
            0 <= i < roster.len() && (#[trigger] roster[i]).name.len() > 0 ==> occupied(
                roster,
            ).contains(roster[i]),
    decreases roster.len(),
{
    if roster.len() > 0 {
        let before = roster.drop_last();
        lemma_occupied(before);
        let now = occupied(roster);
        assert forall|k: int| 0 <= k < now.len() implies (#[trigger] now[k]).name.len() > 0
            && roster.contains(now[k]) by {
            if k < occupied(before).len() {
                assert(now[k] == occupied(before)[k]);
                let j = choose|j: int| 0 <= j < before.len() && before[j] == now[k];
                assert(roster[j] == now[k]);
            } else {
                assert(now[k] == roster.last());
                assert(roster[roster.len() - 1] == now[k]);
            }
        }
        assert forall|i: int|
            0 <= i < roster.len() && (#[trigger] roster[i]).name.len() > 0 implies now.contains(
            roster[i],
        ) by {
            if i < before.len() {
                assert(before[i] == roster[i]);
                let k = choose|k: int|
                    0 <= k < occupied(before).len() && occupied(before)[k] == roster[i];
                assert(now[k] == roster[i]);
            } else {
                assert(now[now.len() - 1] == roster[i]);
            }
        }
    }
}

} // verus!
