//! Connection filters given on the command line: `Country:slot` entries
//! grouped by slot (plain entries in slot 0), and the choice of the group
//! that this instance uses.
use vstd::prelude::*;
use crate::text::{
    owned,
    chars_of, contains, contains_exec, lemma_split_two, split, split_exec, string_from_chars,
    string_views, views,
};

verus! {

/// The value of a digit character.
pub open spec fn digit_value(c: char) -> int {
    (c as u32) - ('0' as u32)
}

/// The character is an ASCII digit.
pub open spec fn is_digit(c: char) -> bool {
    '0' <= c <= '9'
}

/// The number that a sequence of digits writes in base ten.
pub open spec fn digits_value(d: Seq<char>) -> nat
    decreases d.len(),
{
    if d.len() == 0 {
        0
    } else {
        (digits_value(d.drop_last()) * 10 + digit_value(d.last())) as nat
    }
}

/// The text without a leading `+`.
pub open spec fn unsigned_digits(s: Seq<char>) -> Seq<char> {
    if s.len() > 0 && s[0] == '+' {
        s.drop_first()
    } else {
        s
    }
}

/// Every character is a digit.
pub open spec fn all_digits(d: Seq<char>) -> bool {
    forall|i: int| 0 <= i < d.len() ==> is_digit(#[trigger] d[i])
}

/// The value of a text read as an unsigned 16-bit number, as `u16::from_str`
/// reads it: an optional `+`, then one or more digits, at most 65535.
pub open spec fn parse_u16_spec(s: Seq<char>) -> Option<u16> {
    let d = unsigned_digits(s);
    if d.len() > 0 && all_digits(d) && digits_value(d) <= u16::MAX {
        Some(digits_value(d) as u16)
    } else {
        None
    }
}

proof fn lemma_digits_monotone(d: Seq<char>, k: int)
    requires
        0 <= k <= d.len(),
        forall|i: int| 0 <= i < d.len() ==> is_digit(#[trigger] d[i]),
    ensures
        digits_value(d.take(k)) <= digits_value(d),
    decreases d.len() - k,
{
    if k < d.len() {
        assert(d.drop_last().take(k) =~= d.take(k)) by {
        }
        if k == d.len() - 1 {
            assert(d.take(k) =~= d.drop_last());
        } else {
            lemma_digits_monotone(d.drop_last(), k);
        }
        assert(d.drop_last().take(k) =~= d.take(k));
    } else {
        assert(d.take(k) =~= d);
    }
}

/// Reads a text as an unsigned 16-bit number.
pub fn parse_u16(s: &str) -> (r: Option<u16>)
    ensures
        r == parse_u16_spec(s@),
{
    let chars = chars_of(s);
    let start: usize = if chars.len() > 0 && chars[0] == '+' {
        1
    } else {
        0
    };
    let ghost d = if s@.len() > 0 && s@[0] == '+' {
        s@.drop_first()
    } else {
        s@
    };
    assert(d =~= chars@.skip(start as int));
    if start >= chars.len() {
        return None;
    }
    let mut acc: u32 = 0;
    let mut i: usize = start;
    while i < chars.len()
        invariant
            start <= i <= chars.len(),
            chars@ == s@,
            d == unsigned_digits(s@),
            d == chars@.skip(start as int),
            forall|k: int| 0 <= k < i - start ==> is_digit(#[trigger] d[k]),
            acc == digits_value(d.take(i - start)),
            acc <= u16::MAX,
        decreases chars.len() - i,
    {
        let c = chars[i];
        assert(d[i - start] == c);
        if !('0' <= c && c <= '9') {
            assert(!is_digit(d[i - start]));
            assert(!all_digits(d));
            assert(parse_u16_spec(s@) is None);
            return None;
        }
        proof {
            assert(d.take(i - start + 1).drop_last() =~= d.take(i - start));
            assert(d.take(i - start + 1).last() == c);
        }
        acc = acc * 10 + (c as u32 - '0' as u32);
        if acc > 65535 {
            proof {
                if all_digits(d) {
                    lemma_digits_monotone(d, i - start + 1);
                    assert(digits_value(d) > u16::MAX);
                }
                assert(parse_u16_spec(s@) is None);
            }
            return None;
        }
        i = i + 1;
    }
    assert(d.take(i - start) =~= d);
    Some(acc as u16)
}

/// The digit character of a value below ten.
pub open spec fn digit_char(d: nat) -> char {
    ((48 + d) as u8) as char
}

/// The decimal text of a number, without leading zeros.
pub open spec fn decimal_text(n: nat) -> Seq<char>
    decreases n,
{
    if n < 10 {
        seq![digit_char(n)]
    } else {
        decimal_text(n / 10).push(digit_char(n % 10))
    }
}

fn decimal_chars(n: u16) -> (v: Vec<char>)
    ensures
        v@ == decimal_text(n as nat),
    decreases n,
{
    if n < 10 {
        let mut v: Vec<char> = Vec::new();
        v.push(((48 + n) as u8) as char);
        v
    } else {
        let mut v = decimal_chars(n / 10);
        v.push(((48 + n % 10) as u8) as char);
        v
    }
}

/// The decimal text of a 16-bit number (what `u16::to_string` writes).
pub fn decimal(n: u16) -> (s: String)
    ensures
        s@ == decimal_text(n as nat),
{
    let v = decimal_chars(n);
    string_from_chars(v.as_slice())
}

/// The decimal text of a number is all digits, starts with a digit, and
/// reads back as the number.
pub proof fn lemma_decimal_digits(n: nat)
    ensures
        decimal_text(n).len() > 0,
        all_digits(decimal_text(n)),
        digits_value(decimal_text(n)) == n,
    decreases n,
{
    if n < 10 {
        assert(digit_value(digit_char(n)) == n);
        assert(decimal_text(n).drop_last() =~= Seq::<char>::empty());
        assert(digits_value(Seq::<char>::empty()) == 0);
        assert(decimal_text(n).last() == digit_char(n));
    } else {
        lemma_decimal_digits(n / 10);
        let t = decimal_text(n);
        assert(t.drop_last() =~= decimal_text(n / 10));
        assert(digit_value(digit_char(n % 10)) == n % 10);
        assert(t.last() == digit_char(n % 10));
        assert((n / 10) * 10 + n % 10 == n);
        assert(digits_value(t) == digits_value(t.drop_last()) * 10 + digit_value(t.last()));
        assert forall|i: int| 0 <= i < t.len() implies is_digit(#[trigger] t[i]) by {
            if i < t.len() - 1 {
                assert(t[i] == decimal_text(n / 10)[i]);
            }
        }
    }
}

/// Reading back the decimal text of a 16-bit number gives the number.
pub proof fn lemma_parse_decimal(n: u16)
    ensures
        parse_u16_spec(decimal_text(n as nat)) == Some(n),
{
    lemma_decimal_digits(n as nat);
    let t = decimal_text(n as nat);
    assert(is_digit(t[0]));
    assert(unsigned_digits(t) == t);
}

/// A slot and the countries of its filters, in order.
pub struct FilterSlot {
    pub slot: u16,
    pub countries: Vec<String>,
}

/// The models of the slots.
pub open spec fn slot_views(v: Seq<FilterSlot>) -> Seq<(u16, Seq<Seq<char>>)> {
    v.map_values(|s: FilterSlot| (s.slot, string_views(s.countries@)))
}

/// The slot that a filter names: the number after its first `:`, or 0
/// without one.
pub open spec fn filter_slot(f: Seq<char>) -> Option<u16> {
    if contains(f, ":"@) {
        parse_u16_spec(split(f, ":"@)[1])
    } else {
        Some(0)
    }
}

/// The country that a filter names: the text before its first `:`, or the
/// whole filter.
pub open spec fn filter_country(f: Seq<char>) -> Seq<char> {
    if contains(f, ":"@) {
        split(f, ":"@)[0]
    } else {
        f
    }
}

/// Every filter that names a slot names a readable one.
pub open spec fn filters_readable(fs: Seq<Seq<char>>) -> bool {
    forall|i: int| 0 <= i < fs.len() ==> (#[trigger] filter_slot(fs[i])) is Some
}

/// Index of the group of `slot`, or -1.
pub open spec fn slot_index(m: Seq<(u16, Seq<Seq<char>>)>, slot: u16) -> int
    decreases m.len(),
{
    if m.len() == 0 {
        -1
    } else if m[0].0 == slot {
        0
    } else {
        let r = slot_index(m.drop_first(), slot);
        if r < 0 {
            -1
        } else {
            r + 1
        }
    }
}

/// The groups with `country` appended to the group of `slot` (a new group at
/// the end if there is none).
pub open spec fn add_to_slot(m: Seq<(u16, Seq<Seq<char>>)>, slot: u16, country: Seq<char>) -> Seq<(u16, Seq<Seq<char>>)> {
    let i = slot_index(m, slot);
    if i < 0 {
        m.push((slot, seq![country]))
    } else {
        m.update(i, (slot, m[i].1.push(country)))
    }
}

/// The groups of a sequence of filters, read in order.
pub open spec fn filter_groups(fs: Seq<Seq<char>>) -> Seq<(u16, Seq<Seq<char>>)>
    decreases fs.len(),
{
    if fs.len() == 0 {
        seq![]
    } else {
        add_to_slot(filter_groups(fs.drop_last()), filter_slot(fs.last()).unwrap(), filter_country(fs.last()))
    }
}

/// The countries of the group of `slot`.
pub open spec fn group_of(m: Seq<(u16, Seq<Seq<char>>)>, slot: u16) -> Seq<Seq<char>> {
    m[slot_index(m, slot)].1
}

/// The group that an instance uses: none without filters; the group of slot 0
/// when there is one group; else the group of the instance's slot, if it is
/// given and below the number of groups (taken modulo 2^16).
pub open spec fn selected_group(m: Seq<(u16, Seq<Seq<char>>)>, slot: Option<u16>) -> Option<Seq<Seq<char>>> {
    if m.len() == 0 {
        None
    } else if m.len() == 1 {
        Some(group_of(m, 0))
    } else {
        match slot {
            None => None,
            Some(s) => if s >= (m.len() as u16) {
                None
            } else {
                Some(group_of(m, s))
            },
        }
    }
}

/// The group that the selection reads exists.
pub open spec fn group_selectable(m: Seq<(u16, Seq<Seq<char>>)>, slot: Option<u16>) -> bool {
    if m.len() == 0 {
        true
    } else if m.len() == 1 {
        slot_index(m, 0) >= 0
    } else {
        match slot {
            None => true,
            Some(s) => s >= (m.len() as u16) || slot_index(m, s) >= 0,
        }
    }
}

pub proof fn lemma_slot_index(m: Seq<(u16, Seq<Seq<char>>)>, slot: u16)
    ensures
        -1 <= slot_index(m, slot) < m.len(),
        slot_index(m, slot) >= 0 ==> m[slot_index(m, slot)].0 == slot,
        forall|j: int| 0 <= j < m.len() && (slot_index(m, slot) < 0 || j < slot_index(m, slot)) ==> m[j].0 != slot,
    decreases m.len(),
{
    if m.len() > 0 && m[0].0 != slot {
        lemma_slot_index(m.drop_first(), slot);
        assert forall|j: int| 0 <= j < m.len() && (slot_index(m, slot) < 0 || j < slot_index(m, slot)) implies m[j].0 != slot by {
            if j > 0 {
                assert(m[j] == m.drop_first()[j - 1]);
            }
        }
    }
}

pub proof fn lemma_slot_index_found(m: Seq<(u16, Seq<Seq<char>>)>, slot: u16, i: int)
    requires
        0 <= i < m.len(),
        m[i].0 == slot,
        forall|j: int| 0 <= j < i ==> m[j].0 != slot,
    ensures
        slot_index(m, slot) == i,
    decreases i,
{
    if i > 0 {
        lemma_slot_index_found(m.drop_first(), slot, i - 1);
    }
}

fn find_slot(m: &Vec<FilterSlot>, slot: u16) -> (r: Option<usize>)
    ensures
        match r {
            Some(i) => i < m.len() && slot_index(slot_views(m@), slot) == i,
            None => slot_index(slot_views(m@), slot) == -1,
        },
{
    let ghost v = slot_views(m@);
    let mut i: usize = 0;
    while i < m.len()
        invariant
            i <= m.len(),
            v == slot_views(m@),
            forall|j: int| 0 <= j < i ==> v[j].0 != slot,
        decreases m.len() - i,
    {
        if m[i].slot == slot {
            proof {
                lemma_slot_index_found(v, slot, i as int);
            }
            return Some(i);
        }
        i = i + 1;
    }
    proof {
        lemma_slot_index(v, slot);
    }
    None
}

/// The slot and country of one filter, if its slot can be read.
fn read_filter(f: &String) -> (r: Option<(u16, String)>)
    ensures
        r is Some <==> filter_slot(f@) is Some,
        r matches Some(p) ==> p.0 == filter_slot(f@).unwrap() && p.1@ == filter_country(f@),
{
    let chars = chars_of(f.as_str());
    let colon = chars_of(":");
    proof {
        reveal_strlit(":");
    }
    if contains_exec(&chars, &colon) {
        proof {
            lemma_split_two(f@, ":"@);
        }
        let parts = split_exec(&chars, &colon);
        assert(views(parts@)[0] == parts@[0]@);
        assert(views(parts@)[1] == parts@[1]@);
        let slot_text = string_from_chars(parts[1].as_slice());
        match parse_u16(slot_text.as_str()) {
            Some(slot) => Some((slot, string_from_chars(parts[0].as_slice()))),
            None => None,
        }
    } else {
        Some((0, f.clone()))
    }
}

/// Whether every filter that names a slot names a readable one.
pub fn filters_readable_exec(filters: &Vec<String>) -> (b: bool)
    ensures
        b == filters_readable(string_views(filters@)),
{
    let mut i: usize = 0;
    while i < filters.len()
        invariant
            i <= filters.len(),
            forall|k: int| 0 <= k < i ==> (#[trigger] filter_slot(string_views(filters@)[k])) is Some,
        decreases filters.len() - i,
    {
        if read_filter(&filters[i]).is_none() {
            assert(filter_slot(string_views(filters@)[i as int]) is None);
            return false;
        }
        i = i + 1;
    }
    true
}

/// The filters grouped by slot: each group in the order of its first filter,
/// its countries in the order of their filters.
pub fn filter_map(filters: &Vec<String>) -> (r: Vec<FilterSlot>)
    requires
        filters_readable(string_views(filters@)),
    ensures
        slot_views(r@) == filter_groups(string_views(filters@)),
{
    let mut m: Vec<FilterSlot> = Vec::new();
    let mut i: usize = 0;
    assert(string_views(filters@).take(0) =~= Seq::<Seq<char>>::empty());
    while i < filters.len()
        invariant
            i <= filters.len(),
            filters_readable(string_views(filters@)),
            slot_views(m@) == filter_groups(string_views(filters@).take(i as int)),
        decreases filters.len() - i,
    {
        let ghost fs = string_views(filters@);
        proof {
            assert(fs.take(i + 1).drop_last() =~= fs.take(i as int));
            assert(fs.take(i + 1).last() == fs[i as int]);
            assert(filter_slot(fs[i as int]) is Some);
        }
        let (slot, country) = match read_filter(&filters[i]) {
            Some(p) => p,
            None => {
                return m;
            },
        };
        let ghost before = m@;
        let ghost cv = country@;
        match find_slot(&m, slot) {
            Some(k) => {
                proof {
                    lemma_slot_index(slot_views(before), slot);
                }
                let mut group = m.remove(k);
                let ghost gb = group.countries@;
                group.countries.push(country);
                proof {
                    assert(string_views(group.countries@) =~= string_views(gb).push(cv));
                }
                let ghost ng = group;
                m.insert(k, group);
                proof {
                    assert(m@ =~= before.update(k as int, ng));
                    assert(slot_views(m@) =~= slot_views(before).update(k as int, (slot, slot_views(before)[k as int].1.push(cv))));
                }
            },
            None => {
                let mut countries: Vec<String> = Vec::new();
                countries.push(country);
                proof {
                    assert(string_views(countries@) =~= seq![cv]);
                }
                m.push(FilterSlot { slot, countries });
                proof {
                    assert(slot_views(m@) =~= slot_views(before).push((slot, seq![cv])));
                }
            },
        }
        i = i + 1;
    }
    assert(string_views(filters@).take(filters@.len() as int) =~= string_views(filters@));
    m
}

/// Whether the group that the selection reads exists.
pub fn group_selectable_exec(map: &Vec<FilterSlot>, slot: Option<u16>) -> (b: bool)
    ensures
        b == group_selectable(slot_views(map@), slot),
{
    if map.len() == 0 {
        true
    } else if map.len() == 1 {
        find_slot(map, 0).is_some()
    } else {
        match slot {
            None => true,
            Some(s) => s >= (map.len() as u16) || find_slot(map, s).is_some(),
        }
    }
}

fn copy_countries(v: &Vec<String>) -> (r: Vec<String>)
    ensures
        string_views(r@) == string_views(v@),
{
    let mut r: Vec<String> = Vec::new();
    let mut i: usize = 0;
    while i < v.len()
        invariant
            i <= v@.len(),
            string_views(r@) == string_views(v@).take(i as int),
        decreases v.len() - i,
    {
        let ghost before = r@;
        r.push(v[i].clone());
        proof {
            assert(string_views(r@) =~= string_views(before).push(v@[i as int]@));
            assert(string_views(v@).take(i + 1) =~= string_views(v@).take(i as int).push(v@[i as int]@));
        }
        i = i + 1;
    }
    assert(string_views(v@).take(v@.len() as int) =~= string_views(v@));
    r
}

/// The countries of the group that an instance in `slot` uses.
pub fn select_filters(map: &Vec<FilterSlot>, slot: Option<u16>) -> (r: Option<Vec<String>>)
    requires
        group_selectable(slot_views(map@), slot),
    ensures
        match selected_group(slot_views(map@), slot) {
            None => r is None,
            Some(g) => r matches Some(v) && string_views(v@) == g,
        },
{
    let wanted: u16 = if map.len() == 0 {
        return None;
    } else if map.len() == 1 {
        0
    } else {
        match slot {
            None => {
                return None;
            },
            Some(s) => {
                if s >= (map.len() as u16) {
                    return None;
                }
                s
            },
        }
    };
    match find_slot(map, wanted) {
        Some(k) => {
            assert(slot_views(map@)[k as int].1 == string_views(map@[k as int].countries@));
            Some(copy_countries(&map[k].countries))
        },
        None => None,
    }
}

} // verus!
