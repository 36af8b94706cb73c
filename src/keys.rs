//! Translation of key presses into the byte sequences a shell expects.
use vstd::prelude::*;

verus! {

/// Modifier bits of an X key event's state mask.
pub const SHIFT: u32 = 1;
pub const LOCK: u32 = 2;
pub const CONTROL: u32 = 4;
pub const MOD1: u32 = 8;
pub const MOD3: u32 = 32;
pub const MOD4: u32 = 64;
pub const MOD5: u32 = 128;

/// The modifiers that shortcuts look at: all but `MOD2` (num lock).
pub const RELEVANT: u32 = SHIFT | LOCK | CONTROL | MOD1 | MOD3 | MOD4 | MOD5;

/// One entry of a key's shortcut list: it applies when the event's mask,
/// restricted to `relevant`, equals `required`.
pub struct Shortcut {
    pub required: u32,
    pub relevant: u32,
    pub bytes: Vec<u8>,
}

/// A shortcut entry as plain values: required mask, relevant mask, bytes.
pub type Entry = (u32, u32, Seq<u8>);

/// A list of shortcuts as plain values.
pub open spec fn entries_of(v: Seq<Shortcut>) -> Seq<Entry> {
    v.map_values(|s: Shortcut| (s.required, s.relevant, s.bytes@))
}

/// `ESC [` followed by `tail`.
pub open spec fn csi(tail: Seq<u8>) -> Seq<u8> {
    seq![27u8, 91u8] + tail
}

/// The list of a cursor key whose escape sequence ends in `dir`: one entry
/// for each combination of shift, alt (`MOD1`) and control, then the bare key.
pub open spec fn arrow_entries(dir: u8) -> Seq<Entry> {
    seq![
        (SHIFT, RELEVANT, csi(seq![49u8, 59u8, 50u8, dir])),
        (MOD1, RELEVANT, csi(seq![49u8, 59u8, 51u8, dir])),
        (SHIFT | MOD1, RELEVANT, csi(seq![49u8, 59u8, 52u8, dir])),
        (CONTROL, RELEVANT, csi(seq![49u8, 59u8, 53u8, dir])),
        (SHIFT | CONTROL, RELEVANT, csi(seq![49u8, 59u8, 54u8, dir])),
        (CONTROL | MOD1, RELEVANT, csi(seq![49u8, 59u8, 55u8, dir])),
        (SHIFT | CONTROL | MOD1, RELEVANT, csi(seq![49u8, 59u8, 56u8, dir])),
        (0u32, 0u32, csi(seq![dir])),
    ]
}

/// A list with one unconditional entry.
pub open spec fn plain_entries(bytes: Seq<u8>) -> Seq<Entry> {
    seq![(0u32, 0u32, bytes)]
}

pub open spec fn home_entries() -> Seq<Entry> {
    seq![(SHIFT, RELEVANT, csi(seq![50u8, 74u8])), (0u32, 0u32, csi(seq![72u8]))]
}

pub open spec fn end_entries() -> Seq<Entry> {
    seq![
        (CONTROL, RELEVANT, csi(seq![74u8])),
        (SHIFT, RELEVANT, csi(seq![75u8])),
        (0u32, 0u32, csi(seq![52u8, 126u8])),
    ]
}

pub open spec fn insert_entries() -> Seq<Entry> {
    seq![
        (SHIFT, RELEVANT, csi(seq![52u8, 108u8])),
        (CONTROL, RELEVANT, csi(seq![76u8])),
        (0u32, 0u32, csi(seq![52u8, 104u8])),
    ]
}

pub open spec fn delete_entries() -> Seq<Entry> {
    seq![
        (CONTROL, RELEVANT, csi(seq![77u8])),
        (SHIFT, RELEVANT, csi(seq![50u8, 75u8])),
        (0u32, 0u32, csi(seq![80u8])),
    ]
}

/// Page keys; `digit` is `5` for prior and `6` for next, and only the
/// non-keypad keys have a control entry.
pub open spec fn page_entries(digit: u8, with_control: bool) -> Seq<Entry> {
    let shifted = (SHIFT, RELEVANT, csi(seq![digit, 59u8, 50u8, 126u8]));
    let bare = (0u32, 0u32, csi(seq![digit, 126u8]));
    if with_control {
        seq![(CONTROL, RELEVANT, csi(seq![digit, 59u8, 53u8, 126u8])), shifted, bare]
    } else {
        seq![shifted, bare]
    }
}

/// The shortcut list of the key named `name`, in the order it is scanned.
pub open spec fn shortcuts(name: Seq<u8>) -> Seq<Entry> {
    if name == seq![75u8, 80, 95, 72, 111, 109, 101] {
        home_entries()
    } else if name == seq![75u8, 80, 95, 85, 112] {
        plain_entries(csi(seq![65u8]))
    } else if name == seq![75u8, 80, 95, 68, 111, 119, 110] {
        plain_entries(csi(seq![66u8]))
    } else if name == seq![75u8, 80, 95, 76, 101, 102, 116] {
        plain_entries(csi(seq![68u8]))
    } else if name == seq![75u8, 80, 95, 82, 105, 103, 104, 116] {
        plain_entries(csi(seq![67u8]))
    } else if name == seq![75u8, 80, 95, 80, 114, 105, 111, 114] {
        page_entries(53, false)
    } else if name == seq![75u8, 80, 95, 66, 101, 103, 105, 110] {
        plain_entries(csi(seq![69u8]))
    } else if name == seq![75u8, 80, 95, 69, 110, 100] {
        end_entries()
    } else if name == seq![75u8, 80, 95, 78, 101, 120, 116] {
        page_entries(54, false)
    } else if name == seq![75u8, 80, 95, 73, 110, 115, 101, 114, 116] {
        insert_entries()
    } else if name == seq![75u8, 80, 95, 68, 101, 108, 101, 116, 101] {
        delete_entries()
    } else if name == seq![75u8, 80, 95, 69, 110, 116, 101, 114] {
        plain_entries(seq![10u8])
    } else if name == seq![85u8, 112] {
        arrow_entries(65)
    } else if name == seq![68u8, 111, 119, 110] {
        arrow_entries(66)
    } else if name == seq![76u8, 101, 102, 116] {
        arrow_entries(68)
    } else if name == seq![82u8, 105, 103, 104, 116] {
        arrow_entries(67)
    } else if name == seq![84u8, 97, 98] {
        seq![(SHIFT, RELEVANT, csi(seq![90u8]))]
    } else if name == seq![82u8, 101, 116, 117, 114, 110] {
        seq![(MOD1, RELEVANT, seq![27u8, 10]), (0u32, 0u32, seq![10u8])]
    } else if name == seq![73u8, 110, 115, 101, 114, 116] {
        insert_entries()
    } else if name == seq![68u8, 101, 108, 101, 116, 101] {
        delete_entries()
    } else if name == seq![66u8, 97, 99, 107, 83, 112, 97, 99, 101] {
        seq![(0u32, RELEVANT, seq![127u8]), (MOD1, RELEVANT, seq![27u8, 127])]
    } else if name == seq![72u8, 111, 109, 101] {
        home_entries()
    } else if name == seq![69u8, 110, 100] {
        end_entries()
    } else if name == seq![80u8, 114, 105, 111, 114] {
        page_entries(53, true)
    } else if name == seq![78u8, 101, 120, 116] {
        page_entries(54, true)
    } else {
        Seq::empty()
    }
}

/// Whether an entry applies to modifier mask `mask`: exact equality after
/// masking with the entry's relevant bits.
pub open spec fn applies(e: Entry, mask: u32) -> bool {
    mask & e.1 == e.0
}

/// The bytes of the first entry that applies to `mask`.
pub open spec fn first_match(entries: Seq<Entry>, mask: u32) -> Option<Seq<u8>>
    decreases entries.len(),
{
    if entries.len() == 0 {
        None
    } else if applies(entries[0], mask) {
        Some(entries[0].2)
    } else {
        first_match(entries.drop_first(), mask)
    }
}

/// `text` without the terminator byte that the keysym text conversion
/// appends.
pub open spec fn without_terminator(text: Seq<u8>) -> Seq<u8> {
    if text.len() == 0 {
        text
    } else {
        text.drop_last()
    }
}

/// What a key press sends: the first applying shortcut of the key named
/// `name`, else the text of the key with the modifiers applied.
pub open spec fn translation(name: Seq<u8>, mask: u32, text: Seq<u8>) -> Seq<u8> {
    match first_match(shortcuts(name), mask) {
        Some(bytes) => bytes,
        None => without_terminator(text),
    }
}

/// A scan of `entries` stops at the first entry that applies to `mask`
/// (exact equality after masking) and yields its bytes; with none that
/// applies it yields nothing.
pub proof fn lemma_first_match_wins(entries: Seq<Entry>, mask: u32, k: int)
    requires
        0 <= k <= entries.len(),
        forall|j: int| 0 <= j < k ==> !applies(#[trigger] entries[j], mask),
    ensures
        k < entries.len() && applies(entries[k], mask) ==> first_match(entries, mask) == Some(
            entries[k].2,
        ),
        k == entries.len() ==> first_match(entries, mask).is_none(),
    decreases k,
{
    if k > 0 {
        let rest = entries.drop_first();
        assert forall|j: int| 0 <= j < k - 1 implies !applies(#[trigger] rest[j], mask) by {
            assert(rest[j] == entries[j + 1]);
        }
        lemma_first_match_wins(rest, mask, k - 1);
    }
}

/// The bytes sent for a key named `name` pressed with modifier mask
/// `mask`, where `text` is what the key with its modifiers applied converts
/// to, terminator included.
pub fn translate(name: &[u8], mask: u32, text: &[u8]) -> (r: Vec<u8>)
    ensures
        r@ == translation(name@, mask, text@),
{
    let list = shortcuts_for(name);
    let ghost all = entries_of(list@);
    assert(all.subrange(0, all.len() as int) =~= all);
    let mut i: usize = 0;
    while i < list.len()
        invariant
            all == entries_of(list@),
            all == shortcuts(name@),
            0 <= i <= list@.len(),
            first_match(all.subrange(i as int, all.len() as int), mask) == first_match(all, mask),
        decreases list@.len() - i,
    {
        let e = &list[i];
        proof {
            let rest = all.subrange(i as int, all.len() as int);
            assert(rest[0] == all[i as int]);
            assert(rest.drop_first() =~= all.subrange(i + 1, all.len() as int));
        }
        if mask & e.relevant == e.required {
            let mut r: Vec<u8> = Vec::new();
            let mut k: usize = 0;
            while k < e.bytes.len()
                invariant
                    0 <= k <= e.bytes@.len(),
                    r@ == e.bytes@.subrange(0, k as int),
                decreases e.bytes@.len() - k,
            {
                r.push(e.bytes[k]);
                k = k + 1;
                assert(r@ =~= e.bytes@.subrange(0, k as int));
            }
            assert(r@ =~= e.bytes@);
            return r;
        }
        i = i + 1;
    }
    assert(all.subrange(i as int, all.len() as int) =~= Seq::<Entry>::empty());
    let mut r: Vec<u8> = Vec::new();
    let keep = if text.len() > 0 {
        text.len() - 1
    } else {
        0
    };
    let mut k: usize = 0;
    while k < keep
        invariant
            keep == (if text@.len() > 0 { text@.len() - 1 } else { 0 }),
            0 <= k <= keep,
            r@ == text@.subrange(0, k as int),
        decreases keep - k,
    {
        r.push(text[k]);
        k = k + 1;
        assert(r@ =~= text@.subrange(0, k as int));
    }
    assert(r@ =~= without_terminator(text@));
    r
}

/// Whether `a` spells `lit`, whose bytes `b` holds.
fn same(a: &[u8], b: Vec<u8>, Ghost(lit): Ghost<Seq<u8>>) -> (r: bool)
    requires
        b@ =~= lit,
    ensures
        r == (a@ == lit),
{
    assert(b@ == lit);
    if a.len() != b.len() {
        return false;
    }
    let mut i: usize = 0;
    while i < a.len()
        invariant
            b@ == lit,
            a@.len() == b@.len(),
            0 <= i <= a@.len(),
            a@.subrange(0, i as int) == b@.subrange(0, i as int),
        decreases a@.len() - i,
    {
        if a[i] != b[i] {
            assert(a@[i as int] != lit[i as int]);
            assert(a@[i as int] != b@[i as int]);
            return false;
        }
        i = i + 1;
        assert(a@.subrange(0, i as int) =~= b@.subrange(0, i as int));
    }
    assert(a@ =~= a@.subrange(0, i as int));
    assert(b@ =~= b@.subrange(0, i as int));
    true
}

fn csi_bytes(tail: Vec<u8>) -> (r: Vec<u8>)
    ensures
        r@ == csi(tail@),
{
    let mut r: Vec<u8> = vec![27u8, 91u8];
    let mut rest = tail;
    r.append(&mut rest);
    assert(r@ =~= csi(tail@));
    r
}

fn entry(required: u32, relevant: u32, bytes: Vec<u8>) -> (r: Shortcut)
    ensures
        r.required == required,
        r.relevant == relevant,
        r.bytes@ == bytes@,
{
    Shortcut { required, relevant, bytes }
}

fn arrow_list(dir: u8) -> (r: Vec<Shortcut>)
    ensures
        entries_of(r@) == arrow_entries(dir),
{
    let r = vec![
        entry(SHIFT, RELEVANT, csi_bytes(vec![49u8, 59u8, 50u8, dir])),
        entry(MOD1, RELEVANT, csi_bytes(vec![49u8, 59u8, 51u8, dir])),
        entry(SHIFT | MOD1, RELEVANT, csi_bytes(vec![49u8, 59u8, 52u8, dir])),
        entry(CONTROL, RELEVANT, csi_bytes(vec![49u8, 59u8, 53u8, dir])),
        entry(SHIFT | CONTROL, RELEVANT, csi_bytes(vec![49u8, 59u8, 54u8, dir])),
        entry(CONTROL | MOD1, RELEVANT, csi_bytes(vec![49u8, 59u8, 55u8, dir])),
        entry(SHIFT | CONTROL | MOD1, RELEVANT, csi_bytes(vec![49u8, 59u8, 56u8, dir])),
        entry(0, 0, csi_bytes(vec![dir])),
    ];
    assert(entries_of(r@) =~~= arrow_entries(dir));
    r
}

fn plain_list(bytes: Vec<u8>) -> (r: Vec<Shortcut>)
    ensures
        entries_of(r@) == plain_entries(bytes@),
{
    let r = vec![entry(0, 0, bytes)];
    assert(entries_of(r@) =~~= plain_entries(r@[0].bytes@));
    r
}

fn home_list() -> (r: Vec<Shortcut>)
    ensures
        entries_of(r@) == home_entries(),
{
    let a = entry(SHIFT, RELEVANT, csi_bytes(vec![50u8, 74u8]));
    let b = entry(0, 0, csi_bytes(vec![72u8]));
    let r = vec![a, b];
    assert(entries_of(r@) =~~= home_entries());
    r
}

fn end_list() -> (r: Vec<Shortcut>)
    ensures
        entries_of(r@) == end_entries(),
{
    let r = vec![
        entry(CONTROL, RELEVANT, csi_bytes(vec![74u8])),
        entry(SHIFT, RELEVANT, csi_bytes(vec![75u8])),
        entry(0, 0, csi_bytes(vec![52u8, 126u8])),
    ];
    assert(entries_of(r@) =~~= end_entries());
    r
}

fn insert_list() -> (r: Vec<Shortcut>)
    ensures
        entries_of(r@) == insert_entries(),
{
    let r = vec![
        entry(SHIFT, RELEVANT, csi_bytes(vec![52u8, 108u8])),
        entry(CONTROL, RELEVANT, csi_bytes(vec![76u8])),
        entry(0, 0, csi_bytes(vec![52u8, 104u8])),
    ];
    assert(entries_of(r@) =~~= insert_entries());
    r
}

fn delete_list() -> (r: Vec<Shortcut>)
    ensures
        entries_of(r@) == delete_entries(),
{
    let r = vec![
        entry(CONTROL, RELEVANT, csi_bytes(vec![77u8])),
        entry(SHIFT, RELEVANT, csi_bytes(vec![50u8, 75u8])),
        entry(0, 0, csi_bytes(vec![80u8])),
    ];
    assert(entries_of(r@) =~~= delete_entries());
    r
}

fn page_list(digit: u8, with_control: bool) -> (r: Vec<Shortcut>)
    ensures
        entries_of(r@) == page_entries(digit, with_control),
{
    let shifted = entry(SHIFT, RELEVANT, csi_bytes(vec![digit, 59u8, 50u8, 126u8]));
    let bare = entry(0, 0, csi_bytes(vec![digit, 126u8]));
    if with_control {
        let r = vec![
            entry(CONTROL, RELEVANT, csi_bytes(vec![digit, 59u8, 53u8, 126u8])),
            shifted,
            bare,
        ];
        assert(entries_of(r@) =~~= page_entries(digit, with_control));
        r
    } else {
        let r = vec![shifted, bare];
        assert(entries_of(r@) =~~= page_entries(digit, with_control));
        r
    }
}

/// The shortcut list of the key named `name`; empty for a key without one.
pub fn shortcuts_for(name: &[u8]) -> (r: Vec<Shortcut>)
    ensures
        entries_of(r@) == shortcuts(name@),
{
    let ghost lit = seq![75u8, 80, 95, 72, 111, 109, 101];
    let found = same(name, vec![75u8, 80, 95, 72, 111, 109, 101], Ghost(lit));
    if found {
        let r = home_list();
        assert(entries_of(r@) =~~= shortcuts(name@));
        return r;
    }
    let ghost lit = seq![75u8, 80, 95, 85, 112];
    let found = same(name, vec![75u8, 80, 95, 85, 112], Ghost(lit));
    if found {
        let r = plain_list(csi_bytes(vec![65u8]));
        assert(entries_of(r@) =~~= shortcuts(name@));
        return r;
    }
    let ghost lit = seq![75u8, 80, 95, 68, 111, 119, 110];
    let found = same(name, vec![75u8, 80, 95, 68, 111, 119, 110], Ghost(lit));
    if found {
        let r = plain_list(csi_bytes(vec![66u8]));
        assert(entries_of(r@) =~~= shortcuts(name@));
        return r;
    }
    let ghost lit = seq![75u8, 80, 95, 76, 101, 102, 116];
    let found = same(name, vec![75u8, 80, 95, 76, 101, 102, 116], Ghost(lit));
    if found {
        let r = plain_list(csi_bytes(vec![68u8]));
        assert(entries_of(r@) =~~= shortcuts(name@));
        return r;
    }
    let ghost lit = seq![75u8, 80, 95, 82, 105, 103, 104, 116];
    let found = same(name, vec![75u8, 80, 95, 82, 105, 103, 104, 116], Ghost(lit));
    if found {
        let r = plain_list(csi_bytes(vec![67u8]));
        assert(entries_of(r@) =~~= shortcuts(name@));
        return r;
    }
    let ghost lit = seq![75u8, 80, 95, 80, 114, 105, 111, 114];
    let found = same(name, vec![75u8, 80, 95, 80, 114, 105, 111, 114], Ghost(lit));
    if found {
        let r = page_list(53, false);
        assert(entries_of(r@) =~~= shortcuts(name@));
        return r;
    }
    let ghost lit = seq![75u8, 80, 95, 66, 101, 103, 105, 110];
    let found = same(name, vec![75u8, 80, 95, 66, 101, 103, 105, 110], Ghost(lit));
    if found {
        let r = plain_list(csi_bytes(vec![69u8]));
        assert(entries_of(r@) =~~= shortcuts(name@));
        return r;
    }
    let ghost lit = seq![75u8, 80, 95, 69, 110, 100];
    let found = same(name, vec![75u8, 80, 95, 69, 110, 100], Ghost(lit));
    if found {
        let r = end_list();
        assert(entries_of(r@) =~~= shortcuts(name@));
        return r;
    }
    let ghost lit = seq![75u8, 80, 95, 78, 101, 120, 116];
    let found = same(name, vec![75u8, 80, 95, 78, 101, 120, 116], Ghost(lit));
    if found {
        let r = page_list(54, false);
        assert(entries_of(r@) =~~= shortcuts(name@));
        return r;
    }
    let ghost lit = seq![75u8, 80, 95, 73, 110, 115, 101, 114, 116];
    let found = same(name, vec![75u8, 80, 95, 73, 110, 115, 101, 114, 116], Ghost(lit));
    if found {
        let r = insert_list();
        assert(entries_of(r@) =~~= shortcuts(name@));
        return r;
    }
    let ghost lit = seq![75u8, 80, 95, 68, 101, 108, 101, 116, 101];
    let found = same(name, vec![75u8, 80, 95, 68, 101, 108, 101, 116, 101], Ghost(lit));
    if found {
        let r = delete_list();
        assert(entries_of(r@) =~~= shortcuts(name@));
        return r;
    }
    let ghost lit = seq![75u8, 80, 95, 69, 110, 116, 101, 114];
    let found = same(name, vec![75u8, 80, 95, 69, 110, 116, 101, 114], Ghost(lit));
    if found {
        let r = plain_list(vec![10u8]);
        assert(entries_of(r@) =~~= shortcuts(name@));
        return r;
    }
    let ghost lit = seq![85u8, 112];
    let found = same(name, vec![85u8, 112], Ghost(lit));
    if found {
        let r = arrow_list(65);
        assert(entries_of(r@) =~~= shortcuts(name@));
        return r;
    }
    let ghost lit = seq![68u8, 111, 119, 110];
    let found = same(name, vec![68u8, 111, 119, 110], Ghost(lit));
    if found {
        let r = arrow_list(66);
        assert(entries_of(r@) =~~= shortcuts(name@));
        return r;
    }
    let ghost lit = seq![76u8, 101, 102, 116];
    let found = same(name, vec![76u8, 101, 102, 116], Ghost(lit));
    if found {
        let r = arrow_list(68);
        assert(entries_of(r@) =~~= shortcuts(name@));
        return r;
    }
    let ghost lit = seq![82u8, 105, 103, 104, 116];
    let found = same(name, vec![82u8, 105, 103, 104, 116], Ghost(lit));
    if found {
        let r = arrow_list(67);
        assert(entries_of(r@) =~~= shortcuts(name@));
        return r;
    }
    let ghost lit = seq![84u8, 97, 98];
    let found = same(name, vec![84u8, 97, 98], Ghost(lit));
    if found {
        let r = vec![entry(SHIFT, RELEVANT, csi_bytes(vec![90u8]))];
        assert(entries_of(r@) =~~= shortcuts(name@));
        return r;
    }
    let ghost lit = seq![82u8, 101, 116, 117, 114, 110];
    let found = same(name, vec![82u8, 101, 116, 117, 114, 110], Ghost(lit));
    if found {
        let r = vec![entry(MOD1, RELEVANT, vec![27u8, 10]), entry(0, 0, vec![10u8])];
        assert(entries_of(r@) =~~= shortcuts(name@));
        return r;
    }
    let ghost lit = seq![73u8, 110, 115, 101, 114, 116];
    let found = same(name, vec![73u8, 110, 115, 101, 114, 116], Ghost(lit));
    if found {
        let r = insert_list();
        assert(entries_of(r@) =~~= shortcuts(name@));
        return r;
    }
    let ghost lit = seq![68u8, 101, 108, 101, 116, 101];
    let found = same(name, vec![68u8, 101, 108, 101, 116, 101], Ghost(lit));
    if found {
        let r = delete_list();
        assert(entries_of(r@) =~~= shortcuts(name@));
        return r;
    }
    let ghost lit = seq![66u8, 97, 99, 107, 83, 112, 97, 99, 101];
    let found = same(name, vec![66u8, 97, 99, 107, 83, 112, 97, 99, 101], Ghost(lit));
    if found {
        let r = vec![entry(0, RELEVANT, vec![127u8]), entry(MOD1, RELEVANT, vec![27u8, 127])];
        assert(entries_of(r@) =~~= shortcuts(name@));
        return r;
    }
    let ghost lit = seq![72u8, 111, 109, 101];
    let found = same(name, vec![72u8, 111, 109, 101], Ghost(lit));
    if found {
        let r = home_list();
        assert(entries_of(r@) =~~= shortcuts(name@));
        return r;
    }
    let ghost lit = seq![69u8, 110, 100];
    let found = same(name, vec![69u8, 110, 100], Ghost(lit));
    if found {
        let r = end_list();
        assert(entries_of(r@) =~~= shortcuts(name@));
        return r;
    }
    let ghost lit = seq![80u8, 114, 105, 111, 114];
    let found = same(name, vec![80u8, 114, 105, 111, 114], Ghost(lit));
    if found {
        let r = page_list(53, true);
        assert(entries_of(r@) =~~= shortcuts(name@));
        return r;
    }
    let ghost lit = seq![78u8, 101, 120, 116];
    let found = same(name, vec![78u8, 101, 120, 116], Ghost(lit));
    if found {
        let r = page_list(54, true);
        assert(entries_of(r@) =~~= shortcuts(name@));
        return r;
    }
    let r: Vec<Shortcut> = Vec::new();
    assert(entries_of(r@) =~~= shortcuts(name@));
    r
}

} // verus!
