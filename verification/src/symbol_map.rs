//! Symbols in the order of their addresses.
use crate::image;
use crate::symbols::Symbol;
use vstd::prelude::*;

verus! {

/// The symbols as values.
pub open spec fn models(symbols: Seq<Symbol>) -> Seq<image::SymbolModel> {
    Seq::new(symbols.len(), |i: int| symbols[i]@)
}

/// Whether the `i`-th symbol is the first one at its address.
pub open spec fn is_first_at_address(symbols: Seq<image::SymbolModel>, i: int) -> bool {
    &&& 0 <= i < symbols.len()
    &&& forall|k: int| 0 <= k < i ==> (#[trigger] symbols[k]).address != symbols[i].address
}

/// The size of a symbol that is the `j`-th of a map: where it is not known, the symbol extends up
/// to the next one. Nothing is known of the last symbol.
pub open spec fn size_in_map(
    symbol: image::SymbolModel,
    map: Seq<image::SymbolModel>,
    j: int,
) -> int {
    if symbol.size != 0 || j + 1 >= map.len() {
        symbol.size
    } else {
        map[j + 1].address - map[j].address
    }
}

/// Whether the `j`-th symbol of a map is the `i`-th of the symbols, the first one at its address.
pub open spec fn takes_symbol(
    symbols: Seq<image::SymbolModel>,
    map: Seq<image::SymbolModel>,
    i: int,
    j: int,
) -> bool {
    &&& is_first_at_address(symbols, i)
    &&& map[j].name == symbols[i].name
    &&& map[j].address == symbols[i].address
    &&& map[j].size == size_in_map(symbols[i], map, j)
}

/// Whether the `j`-th symbol of a map is one of the symbols, the first one at its address.
pub open spec fn has_source(
    symbols: Seq<image::SymbolModel>,
    map: Seq<image::SymbolModel>,
    j: int,
) -> bool {
    exists|i: int| takes_symbol(symbols, map, i, j)
}

/// Whether some symbol has the address.
pub open spec fn has_address(symbols: Seq<image::SymbolModel>, address: int) -> bool {
    exists|j: int| 0 <= j < symbols.len() && (#[trigger] symbols[j]).address == address
}

/// Whether a map holds, in the order of their addresses, the first symbol at each address.
pub open spec fn is_map_of(
    symbols: Seq<image::SymbolModel>,
    map: Seq<image::SymbolModel>,
) -> bool {
    &&& forall|j: int, k: int|
        0 <= j < k < map.len() ==> (#[trigger] map[j]).address < (#[trigger] map[k]).address
    &&& forall|j: int| 0 <= j < map.len() ==> #[trigger] has_source(symbols, map, j)
    &&& forall|i: int| 0 <= i < symbols.len() ==> has_address(map, (#[trigger] symbols[i]).address)
}

/// Whether one symbol comes before another one: by its address, and by its place among symbols at
/// the same address.
spec fn precedes(symbols: Seq<Symbol>, i: int, k: int) -> bool {
    symbols[i].address < symbols[k].address || (symbols[i].address == symbols[k].address && i < k)
}

/// Whether an order lists the numbers from `lo` to `hi`, as the symbols come after each other.
spec fn is_order(symbols: Seq<Symbol>, order: Seq<usize>, lo: int, hi: int) -> bool {
    &&& forall|k: int| 0 <= k < order.len() ==> lo <= #[trigger] order[k] < hi
    &&& forall|k: int, l: int|
        0 <= k < l < order.len() ==> precedes(
            symbols,
            #[trigger] order[k] as int,
            #[trigger] order[l] as int,
        )
    &&& forall|i: int| lo <= i < hi ==> #[trigger] is_listed(order, i)
}

/// Whether an order lists a number.
spec fn is_listed(order: Seq<usize>, i: int) -> bool {
    exists|k: int| 0 <= k < order.len() && #[trigger] order[k] == i
}

/// An order lists what it listed before it grew, and the number at its end.
proof fn lemma_push(order: Seq<usize>, x: usize)
    ensures
        is_listed(order.push(x), x as int),
        forall|i: int| is_listed(order, i) ==> #[trigger] is_listed(order.push(x), i),
{
    assert(order.push(x)[order.len() as int] == x);
    assert forall|i: int| is_listed(order, i) implies #[trigger] is_listed(order.push(x), i) by {
        let k = choose|k: int| 0 <= k < order.len() && #[trigger] order[k] == i;
        assert(order.push(x)[k] == i);
    }
}

/// Merges the orders of two neighbouring ranges.
fn merge(
    symbols: &Vec<Symbol>,
    left: &Vec<usize>,
    right: &Vec<usize>,
    Ghost(lo): Ghost<int>,
    Ghost(mid): Ghost<int>,
    Ghost(hi): Ghost<int>,
) -> (res: Vec<usize>)
    requires
        0 <= lo <= mid <= hi <= symbols@.len(),
        is_order(symbols@, left@, lo, mid),
        is_order(symbols@, right@, mid, hi),
    ensures
        is_order(symbols@, res@, lo, hi),
{
    let mut res: Vec<usize> = Vec::new();
    let mut a: usize = 0;
    let mut b: usize = 0;
    while a < left.len() || b < right.len()
        invariant
            0 <= lo <= mid <= hi <= symbols@.len(),
            is_order(symbols@, left@, lo, mid),
            is_order(symbols@, right@, mid, hi),
            a <= left@.len(),
            b <= right@.len(),
            forall|k: int| 0 <= k < res@.len() ==> lo <= #[trigger] res@[k] < hi,
            forall|k: int, l: int|
                0 <= k < l < res@.len() ==> precedes(
                    symbols@,
                    #[trigger] res@[k] as int,
                    #[trigger] res@[l] as int,
                ),
            forall|k: int, l: int|
                0 <= k < res@.len() && a <= l < left@.len() ==> precedes(
                    symbols@,
                    #[trigger] res@[k] as int,
                    #[trigger] left@[l] as int,
                ),
            forall|k: int, l: int|
                0 <= k < res@.len() && b <= l < right@.len() ==> precedes(
                    symbols@,
                    #[trigger] res@[k] as int,
                    #[trigger] right@[l] as int,
                ),
            forall|l: int| 0 <= l < a ==> is_listed(res@, #[trigger] left@[l] as int),
            forall|l: int| 0 <= l < b ==> is_listed(res@, #[trigger] right@[l] as int),
        decreases left.len() - a + right.len() - b,
    {
        let take_left = if a == left.len() {
            false
        } else if b == right.len() {
            true
        } else {
            symbols[left[a]].address <= symbols[right[b]].address
        };
        let next: usize = if take_left {
            left[a]
        } else {
            right[b]
        };
        proof {
            lemma_push(res@, next);
        }
        res.push(next);
        if take_left {
            a = a + 1;
        } else {
            b = b + 1;
        }
    }
    assert forall|i: int| lo <= i < hi implies #[trigger] is_listed(res@, i) by {
        if i < mid {
            assert(is_listed(left@, i));
        } else {
            assert(is_listed(right@, i));
        }
    }
    res
}

/// The numbers from `lo` to `hi`, as the symbols come after each other.
fn sorted_range(symbols: &Vec<Symbol>, lo: usize, hi: usize) -> (res: Vec<usize>)
    requires
        lo <= hi <= symbols@.len(),
    ensures
        is_order(symbols@, res@, lo as int, hi as int),
    decreases hi - lo,
{
    if hi - lo < 2 {
        let mut res: Vec<usize> = Vec::new();
        if lo < hi {
            res.push(lo);
            assert(res@[0] == lo);
        }
        return res;
    }
    let mid: usize = lo + (hi - lo) / 2;
    let left = sorted_range(symbols, lo, mid);
    let right = sorted_range(symbols, mid, hi);
    merge(symbols, &left, &right, Ghost(lo as int), Ghost(mid as int), Ghost(hi as int))
}

/// A symbol with another address than the one before it in an order is the first at its address.
proof fn lemma_first(symbols: Seq<Symbol>, order: Seq<usize>, p: int)
    requires
        is_order(symbols, order, 0, symbols.len() as int),
        0 <= p < order.len(),
        p > 0 ==> symbols[order[p - 1] as int].address != symbols[order[p] as int].address,
    ensures
        is_first_at_address(models(symbols), order[p] as int),
        p > 0 ==> symbols[order[p - 1] as int].address < symbols[order[p] as int].address,
{
    let i = order[p] as int;
    assert forall|k: int| 0 <= k < i implies (#[trigger] models(symbols)[k]).address != models(
        symbols,
    )[i].address by {
        assert(is_listed(order, k));
    }
}

/// The symbols of an image, in the order of their addresses and with their sizes.
pub struct SymbolMap<'d> {
    symbols: Vec<Symbol<'d>>,
}

impl<'d> View for SymbolMap<'d> {
    type V = Seq<image::SymbolModel>;

    closed spec fn view(&self) -> Seq<image::SymbolModel> {
        models(self.symbols@)
    }
}

impl<'d> SymbolMap<'d> {
    /// Puts symbols in the order of their addresses. Only the first symbol at each address is kept.
    /// A symbol of unknown size extends up to the next one.
    pub fn from_symbols(symbols: Vec<Symbol<'d>>) -> (res: SymbolMap<'d>)
        ensures
            is_map_of(models(symbols@), res@),
    {
        let ghost all = models(symbols@);
        let order = sorted_range(&symbols, 0, symbols.len());
        let mut map: Vec<Symbol<'d>> = Vec::new();
        let ghost mut source: Seq<int> = Seq::empty();
        let mut p: usize = 0;
        while p < order.len()
            invariant
                p <= order@.len(),
                all == models(symbols@),
                is_order(symbols@, order@, 0, symbols@.len() as int),
                source.len() == map@.len(),
                p > 0 ==> map@.len() > 0 && map@.last().address == symbols@[order@[p
                    - 1] as int].address,
                forall|j: int, k: int|
                    0 <= j < k < map@.len() ==> (#[trigger] map@[j]).address < (
                    #[trigger] map@[k]).address,
                forall|j: int| #![trigger source[j]]
                    0 <= j < map@.len() ==> takes_symbol(all, models(map@), source[j], j),
                forall|k: int|
                    0 <= k < p ==> #[trigger] has_address(
                        models(map@),
                        all[order@[k] as int].address,
                    ),
                p == 0 ==> map@.len() == 0,
            decreases order.len() - p,
        {
            let next = symbols[order[p]];
            let ghost before = map@;
            let n: usize = map.len();
            if n > 0 && map[n - 1].address == next.address {
                assert(has_address(models(map@), next@.address)) by {
                    assert(models(map@)[n - 1].address == next@.address);
                }
                p = p + 1;
                continue ;
            }
            proof {
                lemma_first(symbols@, order@, p as int);
            }
            if n > 0 && map[n - 1].size == 0 {
                let last = map[n - 1];
                map.set(
                    n - 1,
                    Symbol { size: next.address - last.address, ..last },
                );
            }
            map.push(next);
            proof {
                source = source.push(order@[p as int] as int);
                assert forall|j: int|
                    #![trigger source[j]]
                    0 <= j < map@.len() implies takes_symbol(all, models(map@), source[j], j) by {}
                assert forall|k: int| 0 <= k < p + 1 implies #[trigger] has_address(
                    models(map@),
                    all[order@[k] as int].address,
                ) by {
                    if k < p {
                        let address = all[order@[k] as int].address;
                        assert(has_address(models(before), address));
                        let j = choose|j: int|
                            0 <= j < before.len() && (#[trigger] models(before)[j]).address
                                == address;
                        assert(models(map@)[j].address == address);
                    } else {
                        assert(models(map@)[n as int].address == next@.address);
                    }
                }
            }
            p = p + 1;
        }
        let res = SymbolMap { symbols: map };
        proof {
            assert forall|j: int| 0 <= j < res@.len() implies #[trigger] has_source(
                all,
                res@,
                j,
            ) by {
                assert(takes_symbol(all, res@, source[j], j));
            }
            assert forall|i: int| 0 <= i < all.len() implies has_address(
                res@,
                (#[trigger] all[i]).address,
            ) by {
                assert(is_listed(order@, i));
            }
        }
        res
    }

    /// The symbols in the map.
    pub fn symbols(&self) -> (res: &[Symbol<'d>])
        ensures
            models(res@) == self@,
    {
        self.symbols.as_slice()
    }
}

} // verus!
