//! Microphones: the list offered in settings, the ids it uses, and which
//! device a saved id picks.
use vstd::prelude::*;

use crate::text::{
    all_digits, chars_of, decimal, is_digit, lemma_decimal_digits, parse_usize, unsigned_text_value, parse_usize_chars, push_decimal, str_eq, string_from_chars,
    string_from_range, sviews,
};

verus! {

/// An input device as the settings screen lists it.
#[derive(Debug, Clone)]
pub struct AudioInputDevice {
    pub id: String,
    pub name: String,
    pub is_default: bool,
}

/// The id of the device at position `idx`: its name, '#', the position.
pub open spec fn device_id(name: Seq<char>, idx: nat) -> Seq<char> {
    name + "#"@ + decimal(idx)
}

pub fn format_device_id(name: &str, idx: usize) -> (r: String)
    ensures
        r@ == device_id(name@, idx as nat),
{
    let mut v = chars_of(name);
    v.push('#');
    push_decimal(&mut v, idx as u64);
    proof {
        reveal_strlit("#");
    }
    assert(v@ =~= device_id(name@, idx as nat));
    string_from_chars(&v)
}

/// The position of the last '#' in `s`.
pub open spec fn last_hash(s: Seq<char>) -> Option<int>
    decreases s.len(),
{
    if s.len() == 0 {
        None
    } else if s.last() == '#' {
        Some(s.len() - 1)
    } else {
        last_hash(s.drop_last())
    }
}

pub proof fn lemma_last_hash(s: Seq<char>)
    ensures
        last_hash(s) matches Some(h) ==> 0 <= h < s.len() && s[h] == '#',
        last_hash(s) is None ==> forall|k: int| 0 <= k < s.len() ==> s[k] != '#',
    decreases s.len(),
{
    if s.len() > 0 && s.last() != '#' {
        lemma_last_hash(s.drop_last());
        assert forall|k: int| 0 <= k < s.len() - 1 implies s[k] == s.drop_last()[k] by {}
    }
}

/// The device name in a saved id: what comes before the last '#', when a
/// number follows it and the name is not empty.
pub open spec fn device_id_name(s: Seq<char>) -> Option<Seq<char>> {
    match last_hash(s) {
        Some(h) => if h == 0 {
            None
        } else if parse_usize(s.skip(h + 1)) is Some {
            Some(s.take(h))
        } else {
            None
        },
        None => None,
    }
}

proof fn lemma_last_hash_after(a: Seq<char>, b: Seq<char>)
    requires
        forall|k: int| 0 <= k < b.len() ==> b[k] != '#',
    ensures
        last_hash(a.push('#') + b) == Some(a.len() as int),
    decreases b.len(),
{
    let s = a.push('#') + b;
    if b.len() == 0 {
        assert(s =~= a.push('#'));
    } else {
        assert(s.last() == b[b.len() - 1]);
        assert(s.drop_last() =~= a.push('#') + b.drop_last());
        lemma_last_hash_after(a, b.drop_last());
    }
}

/// A saved id gives back the name it was made from: reading the id that
/// `format_device_id` writes for a non-empty name yields that name.
pub proof fn lemma_device_id_round_trip(name: Seq<char>, idx: usize)
    requires
        name.len() > 0,
    ensures
        device_id_name(device_id(name, idx as nat)) == Some(name),
{
    reveal_strlit("#");
    let d = decimal(idx as nat);
    lemma_decimal_digits(idx as nat);
    assert forall|k: int| 0 <= k < d.len() implies d[k] != '#' by {
        assert(is_digit(d[k]));
    }
    let s = device_id(name, idx as nat);
    assert(s =~= name.push('#') + d);
    lemma_last_hash_after(name, d);
    let h = name.len() as int;
    assert(s.skip(h + 1) =~= d);
    assert(is_digit(d[0]));
    assert(unsigned_text_value(d) == Some(idx as nat));
    assert(s.take(h) =~= name);
}

pub fn parse_audio_input_device_id(selected_id: &str) -> (r: Option<String>)
    ensures
        match device_id_name(selected_id@) {
            Some(n) => r matches Some(x) && x@ == n,
            None => r is None,
        },
{
    let v = chars_of(selected_id);
    let mut i: usize = v.len();
    assert(v@.take(v.len() as int) =~= v@);
    while i > 0 && v[i - 1] != '#'
        invariant
            0 <= i <= v.len(),
            last_hash(v@) == last_hash(v@.take(i as int)),
        decreases i,
    {
        assert(v@.take(i - 1) =~= v@.take(i as int).drop_last());
        i = i - 1;
    }
    assert(v@.take(v.len() as int) =~= v@);
    if i == 0 {
        assert(v@.take(0) =~= Seq::<char>::empty());
        return None;
    }
    let h = i - 1;
    assert(last_hash(v@.take(i as int)) == Some(h as int));
    if h == 0 {
        return None;
    }
    let mut digits: Vec<char> = Vec::new();
    let mut k: usize = h + 1;
    while k < v.len()
        invariant
            h + 1 <= k <= v.len(),
            digits@ == v@.subrange(h + 1, k as int),
        decreases v.len() - k,
    {
        digits.push(v[k]);
        assert(digits@ =~= v@.subrange(h + 1, k + 1));
        k = k + 1;
    }
    assert(digits@ =~= v@.skip(h + 1));
    match parse_usize_chars(&digits) {
        Some(_) => {
            let name = string_from_range(&v, 0, h);
            assert(v@.subrange(0, h as int) =~= v@.take(h as int));
            Some(name)
        },
        None => None,
    }
}

/// How many times `name` occurs in `names`.
pub open spec fn name_count(names: Seq<Seq<char>>, name: Seq<char>) -> nat
    decreases names.len(),
{
    if names.len() == 0 {
        0
    } else {
        name_count(names.drop_last(), name) + if names.last() == name {
            1nat
        } else {
            0nat
        }
    }
}

fn count_name(names: &Vec<String>, name: &String) -> (r: usize)
    ensures
        r == name_count(sviews(names@), name@),
{
    let ghost ns = sviews(names@);
    let mut c: usize = 0;
    let mut i: usize = 0;
    while i < names.len()
        invariant
            0 <= i <= names.len(),
            ns == sviews(names@),
            c == name_count(ns.take(i as int), name@),
            c <= i,
        decreases names.len() - i,
    {
        assert(ns.take(i + 1).drop_last() =~= ns.take(i as int));
        if str_eq(names[i].as_str(), name.as_str()) {
            c = c + 1;
        }
        i = i + 1;
    }
    assert(ns.take(names.len() as int) =~= ns);
    c
}

/// The positions before `n` of devices other than the app's own tap.
pub open spec fn kept_positions(names: Seq<Seq<char>>, n: int) -> Seq<int>
    decreases n,
{
    if n <= 0 {
        Seq::empty()
    } else {
        let p = kept_positions(names, n - 1);
        if names[n - 1] != "Enja Tap"@ {
            p.push(n - 1)
        } else {
            p
        }
    }
}

/// The names at the given positions.
pub open spec fn position_names(names: Seq<Seq<char>>, ps: Seq<int>) -> Seq<Seq<char>> {
    ps.map_values(|i: int| names[i])
}

/// The device offered for position `i`.
pub open spec fn listed_device(
    names: Seq<Seq<char>>,
    default_name: Option<Seq<char>>,
    kept_names: Seq<Seq<char>>,
    i: int,
) -> (Seq<char>, Seq<char>, bool) {
    (
        device_id(names[i], i as nat),
        names[i],
        default_name == Some(names[i]) && name_count(kept_names, names[i]) == 1,
    )
}

/// The devices offered, from the system's input device names in order and
/// the default input's name: the app's own tap is left out; each id keeps
/// the device's position among all devices; a device is the default only
/// when its name is the default's and no other offered device has that name.
pub open spec fn device_list(names: Seq<Seq<char>>, default_name: Option<Seq<char>>) -> Seq<
    (Seq<char>, Seq<char>, bool),
> {
    let kept = kept_positions(names, names.len() as int);
    let kn = position_names(names, kept);
    kept.map_values(|i: int| listed_device(names, default_name, kn, i))
}

pub open spec fn device_views(ds: Seq<AudioInputDevice>) -> Seq<(Seq<char>, Seq<char>, bool)> {
    ds.map_values(|d: AudioInputDevice| (d.id@, d.name@, d.is_default))
}

pub proof fn lemma_kept_positions_bounded(names: Seq<Seq<char>>, n: int)
    requires
        n <= names.len(),
    ensures
        forall|j: int|
            0 <= j < kept_positions(names, n).len() ==> 0 <= #[trigger] kept_positions(names, n)[j]
                < n,
    decreases n,
{
    if n > 0 {
        lemma_kept_positions_bounded(names, n - 1);
        let p = kept_positions(names, n - 1);
        assert forall|j: int| 0 <= j < kept_positions(names, n).len() implies 0 <= #[trigger] kept_positions(
            names,
            n,
        )[j] < n by {
            if j < p.len() {
                assert(kept_positions(names, n)[j] == p[j]);
            }
        }
    }
}

pub fn audio_input_devices_from_names(names: &Vec<String>, default_name: &Option<String>) -> (r: Vec<
    AudioInputDevice,
>)
    ensures
        device_views(r@) == device_list(sviews(names@), match default_name {
            Some(d) => Some(d@),
            None => None,
        }),
{
    let ghost ns = sviews(names@);
    let ghost dn: Option<Seq<char>> = match default_name {
        Some(d) => Some(d@),
        None => None,
    };
    let mut kept_idx: Vec<usize> = Vec::new();
    let mut kept_names: Vec<String> = Vec::new();
    let mut i: usize = 0;
    assert(kept_idx@.map_values(|k: usize| k as int) =~= kept_positions(ns, 0));
    assert(sviews(kept_names@) =~= position_names(ns, kept_positions(ns, 0)));
    while i < names.len()
        invariant
            0 <= i <= names.len(),
            ns == sviews(names@),
            kept_idx@.map_values(|k: usize| k as int) == kept_positions(ns, i as int),
            sviews(kept_names@) == position_names(ns, kept_positions(ns, i as int)),
        decreases names.len() - i,
    {
        let ghost before = kept_idx@.map_values(|k: usize| k as int);
        let ghost before_names = sviews(kept_names@);
        if !str_eq(names[i].as_str(), "Enja Tap") {
            kept_idx.push(i);
            let nm = names[i].clone();
            kept_names.push(nm);
            assert(kept_idx@.map_values(|k: usize| k as int) =~= before.push(i as int));
            assert(sviews(kept_names@) =~= before_names.push(ns[i as int]));
            assert(position_names(ns, kept_positions(ns, i + 1)) =~= position_names(
                ns,
                kept_positions(ns, i as int),
            ).push(ns[i as int]));
        }
        i = i + 1;
    }
    let ghost kept = kept_positions(ns, ns.len() as int);
    let ghost kn = position_names(ns, kept);
    proof {
        lemma_kept_positions_bounded(ns, ns.len() as int);
    }
    let mut out: Vec<AudioInputDevice> = Vec::new();
    let mut j: usize = 0;
    while j < kept_idx.len()
        invariant
            0 <= j <= kept_idx.len(),
            ns == sviews(names@),
            kept == kept_positions(ns, ns.len() as int),
            kn == position_names(ns, kept),
            dn == (match default_name {
                Some(d) => Some(d@),
                None => None::<Seq<char>>,
            }),
            kept_idx@.map_values(|k: usize| k as int) == kept,
            sviews(kept_names@) == kn,
            forall|t: int| 0 <= t < kept.len() ==> 0 <= #[trigger] kept[t] < ns.len(),
            device_views(out@) == device_list(ns, dn).take(j as int),
        decreases kept_idx.len() - j,
    {
        let idx = kept_idx[j];
        assert(kept[j as int] == idx as int);
        let name = names[idx].clone();
        let id = format_device_id(name.as_str(), idx);
        let c = count_name(&kept_names, &name);
        assert(c == name_count(kn, ns[idx as int]));
        let is_default = match default_name {
            Some(d) => {
                let same = str_eq(d.as_str(), name.as_str());
                assert(dn == Some(d@));
                assert(same == (dn == Some(ns[idx as int])));
                same && c == 1
            },
            None => {
                assert(dn is None);
                false
            },
        };
        let ghost before = device_views(out@);
        let ghost entry = (id@, name@, is_default);
        assert(name@ == ns[idx as int]);
        assert(entry.0 == listed_device(ns, dn, kn, idx as int).0);
        assert(entry.1 == listed_device(ns, dn, kn, idx as int).1);
        assert(entry.2 == listed_device(ns, dn, kn, idx as int).2);
        assert(entry == listed_device(ns, dn, kn, idx as int));
        out.push(AudioInputDevice { id, name, is_default });
        assert(device_views(out@) =~= before.push(entry));
        assert(device_list(ns, dn)[j as int] == listed_device(ns, dn, kn, idx as int));
        assert(device_views(out@) =~= device_list(ns, dn).take(j + 1));
        j = j + 1;
    }
    assert(device_list(ns, dn).take(kept.len() as int) =~= device_list(ns, dn));
    out
}

/// The first position from `i` on whose id is exactly `sel`.
pub open spec fn first_exact_from(names: Seq<Seq<char>>, sel: Seq<char>, i: int) -> Option<int>
    decreases names.len() - i,
{
    if i < 0 || i >= names.len() {
        None
    } else if device_id(names[i], i as nat) == sel {
        Some(i)
    } else {
        first_exact_from(names, sel, i + 1)
    }
}

/// The last position of `name`.
pub open spec fn last_named(names: Seq<Seq<char>>, name: Seq<char>) -> Option<int>
    decreases names.len(),
{
    if names.len() == 0 {
        None
    } else if names.last() == name {
        Some(names.len() - 1)
    } else {
        last_named(names.drop_last(), name)
    }
}

/// The device a saved id picks: the first whose id is exactly it; else the
/// only device with the id's name; else none.
pub open spec fn selected_device(names: Seq<Seq<char>>, selected: Seq<char>) -> Option<int> {
    match first_exact_from(names, selected, 0) {
        Some(i) => Some(i),
        None => match device_id_name(selected) {
            Some(n) => if name_count(names, n) == 1 {
                last_named(names, n)
            } else {
                None
            },
            None => None,
        },
    }
}

/// The position of the device a saved id picks among the system's input
/// devices (by name, in order); none when nothing was saved.
pub fn select_input_device(names: &Vec<String>, selected_id: Option<&str>) -> (r: Option<usize>)
    ensures
        match selected_id {
            Some(s) => match selected_device(sviews(names@), s@) {
                Some(i) => r matches Some(k) && k as int == i,
                None => r is None,
            },
            None => r is None,
        },
{
    let sel = match selected_id {
        Some(s) => s,
        None => {
            return None;
        },
    };
    let ghost ns = sviews(names@);
    let selected_name = parse_audio_input_device_id(sel);
    let mut count: usize = 0;
    let mut last: Option<usize> = None;
    let mut i: usize = 0;
    while i < names.len()
        invariant
            0 <= i <= names.len(),
            ns == sviews(names@),
            selected_id == Some(sel),
            first_exact_from(ns, sel@, 0) == first_exact_from(ns, sel@, i as int),
            match device_id_name(sel@) {
                Some(n) => selected_name matches Some(x) && x@ == n && count == name_count(
                    ns.take(i as int),
                    n,
                ) && (match last_named(ns.take(i as int), n) {
                    Some(k) => last matches Some(x) && x as int == k,
                    None => last is None,
                }),
                None => selected_name is None && count == 0,
            },
            count <= i,
        decreases names.len() - i,
    {
        assert(ns.take(i + 1).drop_last() =~= ns.take(i as int));
        assert(ns.take(i + 1).last() == ns[i as int]);
        let id = format_device_id(names[i].as_str(), i);
        if str_eq(id.as_str(), sel) {
            assert(device_id(ns[i as int], i as nat) == sel@);
            assert(first_exact_from(ns, sel@, i as int) == Some(i as int));
            assert(selected_device(ns, sel@) == Some(i as int));
            return Some(i);
        }
        match &selected_name {
            Some(n) => {
                if str_eq(names[i].as_str(), n.as_str()) {
                    count = count + 1;
                    last = Some(i);
                }
            },
            None => {},
        }
        i = i + 1;
    }
    assert(ns.take(names.len() as int) =~= ns);
    assert(first_exact_from(ns, sel@, names.len() as int) is None);
    if count == 1 {
        last
    } else {
        None
    }
}

} // verus!
