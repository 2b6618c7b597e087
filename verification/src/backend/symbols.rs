use indexmap::IndexMap;
use vstd::prelude::*;
use crate::backend::stack_unwinder::SymbolInfo;

verus! {

/// `indexmap::IndexMap`: a hash map that keeps its entries in the order
/// in which their keys were first inserted. What a map holds is told
/// through the names below.
#[verifier::external_type_specification]
#[verifier::external_body]
#[verifier::reject_recursive_types(K)]
#[verifier::reject_recursive_types(V)]
#[verifier::reject_recursive_types(S)]
pub struct ExIndexMap<K, V, S>(IndexMap<K, V, S>);

/// The symbols that a map holds, each with its start address, in the order
/// in which the addresses were first inserted.
pub uninterp spec fn symbol_entries(map: IndexMap<u64, SymbolInfo>) -> Seq<(u64, SymbolInfo)>;

/// The address ranges that a map holds, each with the ordinal of its
/// symbol, in the order in which the ordinals were first inserted.
pub uninterp spec fn range_entries(map: IndexMap<u32, (u64, u64)>) -> Seq<(u32, (u64, u64))>;

/// Whether an address is among the keys.
pub open spec fn has_symbol(entries: Seq<(u64, SymbolInfo)>, addr: u64) -> bool {
    exists|i: int| 0 <= i < entries.len() && (#[trigger] entries[i]).0 == addr
}

/// Whether an ordinal is among the keys.
pub open spec fn has_range(entries: Seq<(u32, (u64, u64))>, index: u32) -> bool {
    exists|i: int| 0 <= i < entries.len() && (#[trigger] entries[i]).0 == index
}

/// The entries after `value` was stored under `key`: in the key's place
/// where the key is present, at the end where it is new.
pub open spec fn symbols_with(entries: Seq<(u64, SymbolInfo)>, key: u64, value: SymbolInfo) -> Seq<
    (u64, SymbolInfo),
> {
    if has_symbol(entries, key) {
        Seq::new(
            entries.len(),
            |i: int|
                if entries[i].0 == key {
                    (key, value)
                } else {
                    entries[i]
                },
        )
    } else {
        entries.push((key, value))
    }
}

/// The entries after `value` was stored under `key`: in the key's place
/// where the key is present, at the end where it is new.
pub open spec fn ranges_with(entries: Seq<(u32, (u64, u64))>, key: u32, value: (u64, u64)) -> Seq<
    (u32, (u64, u64)),
> {
    if has_range(entries, key) {
        Seq::new(
            entries.len(),
            |i: int|
                if entries[i].0 == key {
                    (key, value)
                } else {
                    entries[i]
                },
        )
    } else {
        entries.push((key, value))
    }
}

/// `IndexMap::new`: a map that holds nothing.
#[verifier::external_body]
pub(crate) fn new_symbol_map() -> (map: IndexMap<u64, SymbolInfo>)
    ensures
        symbol_entries(map) == Seq::<(u64, SymbolInfo)>::empty(),
{
    IndexMap::new()
}

/// `IndexMap::len`: how many entries the map holds.
#[verifier::external_body]
pub(crate) fn symbol_count(map: &IndexMap<u64, SymbolInfo>) -> (count: usize)
    ensures
        count == symbol_entries(*map).len(),
{
    map.len()
}

/// `IndexMap::get`: the value stored under the key, if the key is present.
#[verifier::external_body]
pub(crate) fn symbol_get<'a>(map: &'a IndexMap<u64, SymbolInfo>, addr: u64) -> (found: Option<
    &'a SymbolInfo,
>)
    ensures
        match found {
            Some(info) => exists|i: int|
                0 <= i < symbol_entries(*map).len() && #[trigger] symbol_entries(*map)[i] == (
                    addr,
                    *info,
                ),
            None => !has_symbol(symbol_entries(*map), addr),
        },
{
    map.get(&addr)
}

/// `IndexMap::get_index`: the entry at a position in the order, if the
/// map has that many.
#[verifier::external_body]
pub(crate) fn symbol_at<'a>(map: &'a IndexMap<u64, SymbolInfo>, position: usize) -> (found: Option<
    (u64, &'a SymbolInfo),
>)
    ensures
        match found {
            Some((addr, info)) => position < symbol_entries(*map).len() && symbol_entries(
                *map,
            )[position as int] == (addr, *info),
            None => position >= symbol_entries(*map).len(),
        },
{
    match map.get_index(position) {
        Some((addr, info)) => Some((*addr, info)),
        None => None,
    }
}

/// `IndexMap::insert`: stores the value under the key. A key that is
/// present keeps its place in the order and gets the new value; a new key
/// goes last.
#[verifier::external_body]
pub(crate) fn symbol_insert(map: &mut IndexMap<u64, SymbolInfo>, addr: u64, info: SymbolInfo)
    ensures
        symbol_entries(*final(map)) == symbols_with(symbol_entries(*old(map)), addr, info),
{
    map.insert(addr, info);
}

/// `IndexMap::new`: a map that holds nothing.
#[verifier::external_body]
pub(crate) fn new_range_map() -> (map: IndexMap<u32, (u64, u64)>)
    ensures
        range_entries(map) == Seq::<(u32, (u64, u64))>::empty(),
{
    IndexMap::new()
}

/// `IndexMap::get`: the value stored under the key, if the key is present.
#[verifier::external_body]
pub(crate) fn range_get(map: &IndexMap<u32, (u64, u64)>, index: u32) -> (found: Option<(u64, u64)>)
    ensures
        match found {
            Some(range) => exists|i: int|
                0 <= i < range_entries(*map).len() && #[trigger] range_entries(*map)[i] == (
                    index,
                    range,
                ),
            None => !has_range(range_entries(*map), index),
        },
{
    map.get(&index).copied()
}

/// `IndexMap::insert`: stores the value under the key. A key that is
/// present keeps its place in the order and gets the new value; a new key
/// goes last.
#[verifier::external_body]
pub(crate) fn range_insert(map: &mut IndexMap<u32, (u64, u64)>, index: u32, range: (u64, u64))
    ensures
        range_entries(*final(map)) == ranges_with(range_entries(*old(map)), index, range),
{
    map.insert(index, range);
}

} // verus!
