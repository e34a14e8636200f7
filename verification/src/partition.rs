//! From symbols to the subscriptions of each connection: the channel that a
//! symbol is named by, and the split of a list into batches no larger than
//! what one connection may hold, in the order of the list.

use vstd::prelude::*;
use vstd::string::*;
use crate::message::texts;

verus! {

/// How an exchange names the channel of a symbol for one kind of event: the
/// symbol between a fixed opening and a fixed closing text.
#[derive(Debug)]
pub struct ChannelNaming {
    pub prefix: String,
    pub suffix: String,
}

/// The name of the channel of `symbol`.
pub open spec fn channel_name(naming: ChannelNaming, symbol: Seq<char>) -> Seq<char> {
    naming.prefix@ + symbol + naming.suffix@
}

/// The names of the channels of `symbols`, in order.
pub open spec fn channel_names(naming: ChannelNaming, symbols: Seq<Seq<char>>) -> Seq<Seq<char>> {
    Seq::new(symbols.len(), |i: int| channel_name(naming, symbols[i]))
}

/// Names the channel of each symbol, in the order of the symbols.
pub fn name_channels(naming: &ChannelNaming, symbols: &[String]) -> (channels: Vec<String>)
    ensures
        texts(channels@) == channel_names(*naming, texts(symbols@)),
{
    let mut channels: Vec<String> = Vec::new();
    let mut i: usize = 0;
    while i < symbols.len()
        invariant
            i <= symbols@.len(),
            channels@.len() == i,
            forall|j: int|
                0 <= j < i ==> (#[trigger] channels@[j])@ == channel_name(*naming, symbols@[j]@),
        decreases symbols@.len() - i,
    {
        let mut channel = naming.prefix.clone();
        channel.append(symbols[i].as_str());
        channel.append(naming.suffix.as_str());
        channels.push(channel);
        i = i + 1;
    }
    assert(texts(channels@) =~= channel_names(*naming, texts(symbols@)));
    channels
}

/// A channel's name tells its symbol: under one naming, two symbols with the
/// same channel are the same symbol.
pub proof fn lemma_channel_tells_symbol(naming: ChannelNaming, a: Seq<char>, b: Seq<char>)
    requires
        channel_name(naming, a) == channel_name(naming, b),
    ensures
        a == b,
{
    let k = naming.prefix@.len() as int;
    assert(channel_name(naming, a).len() == k + a.len() + naming.suffix@.len());
    assert(channel_name(naming, b).len() == k + b.len() + naming.suffix@.len());
    assert forall|i: int| 0 <= i < a.len() implies a[i] == b[i] by {
        assert(channel_name(naming, a)[k + i] == a[i]);
        assert(channel_name(naming, b)[k + i] == b[i]);
    }
    assert(a =~= b);
}

/// Naming keeps symbols apart: where no symbol stands twice in a list, no
/// channel stands twice in the list of their names.
pub proof fn lemma_names_stay_distinct(naming: ChannelNaming, symbols: Seq<Seq<char>>)
    requires
        symbols.no_duplicates(),
    ensures
        channel_names(naming, symbols).no_duplicates(),
{
    let names = channel_names(naming, symbols);
    assert forall|i: int, j: int| 0 <= i < names.len() && 0 <= j < names.len() && i
        != j implies names[i] != names[j] by {
        if names[i] == names[j] {
            lemma_channel_tells_symbol(naming, symbols[i], symbols[j]);
        }
    }
}

/// The ceiling that stands for "no limit".
pub const UNBOUNDED: usize = usize::MAX;

/// The texts of each batch of a list of batches.
pub open spec fn batch_texts(batches: Seq<Vec<String>>) -> Seq<Seq<Seq<char>>> {
    Seq::new(batches.len(), |k: int| texts(batches[k]@))
}

/// How many batches a list of `count` items is split into: exactly one under
/// the unbounded ceiling, and under any other as many as it takes to hold the
/// items.
pub open spec fn batch_count(count: nat, ceiling: usize) -> nat {
    if ceiling == UNBOUNDED {
        1
    } else {
        ((count + ceiling - 1) / (ceiling as int)) as nat
    }
}

/// The batch number `k` of `items`: all of them under the unbounded ceiling,
/// and under any other the next `ceiling` items from position `k * ceiling`
/// on, or as many as are left.
pub open spec fn batch_at(items: Seq<Seq<char>>, ceiling: usize, k: int) -> Seq<Seq<char>> {
    if ceiling == UNBOUNDED {
        items
    } else if k * ceiling + ceiling <= items.len() {
        items.subrange(k * ceiling, k * ceiling + ceiling)
    } else {
        items.subrange(k * ceiling, items.len() as int)
    }
}

/// Whether `batches` is the split of `items` under `ceiling`: there are as
/// many batches as `batch_count` says and each is what `batch_at` says; put
/// one after another they give back `items`; and under a ceiling that is not
/// the unbounded one, no batch is empty or larger than the ceiling.
pub open spec fn is_split(
    batches: Seq<Seq<Seq<char>>>,
    items: Seq<Seq<char>>,
    ceiling: usize,
) -> bool {
    &&& batches.len() == batch_count(items.len(), ceiling)
    &&& forall|k: int|
        0 <= k < batches.len() ==> #[trigger] batches[k] == batch_at(items, ceiling, k)
    &&& batches.flatten() == items
    &&& ceiling != UNBOUNDED ==> forall|k: int|
        0 <= k < batches.len() ==> 0 < (#[trigger] batches[k]).len() <= ceiling
}

/// One more batch starts `ceiling` items further on.
proof fn lemma_next_start(full: int, ceiling: int)
    ensures
        (full + 1) * ceiling == full * ceiling + ceiling,
{
    assert((full + 1) * ceiling == full * ceiling + ceiling) by (nonlinear_arith);
}

/// An earlier batch ends where a later one starts, or before.
proof fn lemma_earlier_ends(k: int, full: int, ceiling: int)
    requires
        0 <= k < full,
        0 < ceiling,
    ensures
        0 <= k * ceiling,
        k * ceiling + ceiling <= full * ceiling,
{
    assert(0 <= k * ceiling && k * ceiling + ceiling <= full * ceiling) by (nonlinear_arith)
        requires
            0 <= k < full,
            0 < ceiling,
    ;
}

/// `full` full batches and `rest` more items, fewer than a batch, take `full`
/// batches where nothing is left over and one more where something is.
proof fn lemma_count(count: int, full: int, rest: int, ceiling: int)
    requires
        0 < ceiling,
        0 <= rest < ceiling,
        0 <= full,
        count == full * ceiling + rest,
    ensures
        (count + ceiling - 1) / ceiling == if rest == 0 {
            full
        } else {
            full + 1
        },
{
    if rest == 0 {
        vstd::arithmetic::div_mod::lemma_fundamental_div_mod_converse(
            count + ceiling - 1,
            ceiling,
            full,
            ceiling - 1,
        );
    } else {
        lemma_next_start(full, ceiling);
        vstd::arithmetic::div_mod::lemma_fundamental_div_mod_converse(
            count + ceiling - 1,
            ceiling,
            full + 1,
            rest - 1,
        );
    }
}

/// Splits `items` into batches of at most `ceiling`. A ceiling of zero admits
/// no subscription and is refused.
pub fn partition(items: &[String], ceiling: usize) -> (split: Option<Vec<Vec<String>>>)
    ensures
        split is None <==> ceiling == 0,
        split matches Some(batches) ==> is_split(batch_texts(batches@), texts(items@), ceiling),
{
    if ceiling == 0 {
        return None;
    }
    let ghost all = texts(items@);
    let mut batches: Vec<Vec<String>> = Vec::new();
    let mut batch: Vec<String> = Vec::new();
    let mut i: usize = 0;
    assert(batch_texts(batches@) =~= Seq::empty());
    assert(all.subrange(0, 0) =~= batch_texts(batches@).flatten() + texts(batch@));
    assert(texts(batch@) =~= all.subrange(0, 0));
    while i < items.len()
        invariant
            0 < ceiling,
            all == texts(items@),
            i <= items@.len(),
            ceiling != UNBOUNDED ==> batch@.len() < ceiling,
            ceiling == UNBOUNDED ==> batches@.len() == 0,
            batches@.len() * ceiling + batch@.len() == i,
            texts(batch@) == all.subrange(batches@.len() * ceiling, i as int),
            batch_texts(batches@).flatten() + texts(batch@) == all.subrange(0, i as int),
            forall|k: int|
                0 <= k < batches@.len() ==> #[trigger] batch_texts(batches@)[k] == all.subrange(
                    k * ceiling,
                    k * ceiling + ceiling,
                ),
        decreases items@.len() - i,
    {
        let ghost before = texts(batch@);
        let ghost full = batches@.len() as int;
        batch.push(items[i].clone());
        assert(texts(batch@) =~= before.push(items@[i as int]@));
        assert(all.subrange(0, i + 1) =~= all.subrange(0, i as int).push(items@[i as int]@));
        assert(all.subrange(full * ceiling, i + 1) =~= all.subrange(full * ceiling, i as int).push(
            items@[i as int]@,
        ));
        i = i + 1;
        if ceiling != UNBOUNDED && batch.len() == ceiling {
            let ghost whole = texts(batch@);
            let ghost earlier = batch_texts(batches@);
            batches.push(batch);
            batch = Vec::new();
            proof {
                lemma_next_start(full, ceiling as int);
                assert(batch_texts(batches@) =~= earlier.push(whole));
                earlier.lemma_flatten_push(whole);
                assert(texts(batch@) =~= Seq::empty());
                assert(texts(batch@) =~= all.subrange((full + 1) * ceiling, i as int));
                assert(batch_texts(batches@).flatten() + texts(batch@) =~= earlier.flatten()
                    + whole);
                assert forall|k: int| 0 <= k < batches@.len() implies #[trigger] batch_texts(
                    batches@,
                )[k] == all.subrange(k * ceiling, k * ceiling + ceiling) by {
                    if k < full {
                        assert(batch_texts(batches@)[k] == earlier[k]);
                    }
                }
            }
        }
    }
    assert(all.subrange(0, i as int) =~= all);
    let ghost full = batches@.len() as int;
    let ghost rest = batch@.len() as int;
    if ceiling == UNBOUNDED || batch.len() > 0 {
        let ghost last = texts(batch@);
        let ghost earlier = batch_texts(batches@);
        batches.push(batch);
        proof {
            assert(batch_texts(batches@) =~= earlier.push(last));
            earlier.lemma_flatten_push(last);
            if ceiling == UNBOUNDED {
                assert(last =~= all);
            }
        }
    } else {
        assert(batch_texts(batches@).flatten() + texts(batch@) =~= batch_texts(
            batches@,
        ).flatten());
    }
    proof {
        if ceiling != UNBOUNDED {
            lemma_count(all.len() as int, full, rest, ceiling as int);
            lemma_next_start(full, ceiling as int);
            assert forall|k: int| 0 <= k < batches@.len() implies #[trigger] batch_texts(
                batches@,
            )[k] == batch_at(all, ceiling, k) && 0 < batch_texts(batches@)[k].len() <= ceiling by {
                if k < full {
                    lemma_earlier_ends(k, full, ceiling as int);
                }
            }
        }
    }
    Some(batches)
}

/// Every element of a batch is an element of the batches put one after another.
pub proof fn lemma_batch_within(batches: Seq<Seq<Seq<char>>>, k: int, item: Seq<char>)
    requires
        0 <= k < batches.len(),
        batches[k].contains(item),
    ensures
        batches.flatten().contains(item),
    decreases batches.len(),
{
    let front = batches.drop_last();
    assert(batches =~= front.push(batches.last()));
    front.lemma_flatten_push(batches.last());
    let at = choose|a: int| 0 <= a < batches[k].len() && batches[k][a] == item;
    if k == batches.len() - 1 {
        assert(batches.flatten()[front.flatten().len() + at] == item);
    } else {
        lemma_batch_within(front, k, item);
        let p = choose|p: int| 0 <= p < front.flatten().len() && front.flatten()[p] == item;
        assert(batches.flatten()[p] == item);
    }
}

/// Where no item stands twice in a list, no item stands in two batches of any
/// split of the list.
pub proof fn lemma_batches_disjoint(
    batches: Seq<Seq<Seq<char>>>,
    items: Seq<Seq<char>>,
    j: int,
    k: int,
    item: Seq<char>,
)
    requires
        batches.flatten() == items,
        items.no_duplicates(),
        0 <= j < k < batches.len(),
    ensures
        !(batches[j].contains(item) && batches[k].contains(item)),
    decreases batches.len(),
{
    let front = batches.drop_last();
    assert(batches =~= front.push(batches.last()));
    front.lemma_flatten_push(batches.last());
    let joined = front.flatten();
    assert forall|p: int, q: int| 0 <= p < q < joined.len() implies joined[p] != joined[q] by {
        assert(items[p] == joined[p] && items[q] == joined[q]);
    }
    if batches[j].contains(item) && batches[k].contains(item) {
        if k == batches.len() - 1 {
            lemma_batch_within(front, j, item);
            let p = choose|p: int| 0 <= p < joined.len() && joined[p] == item;
            let a = choose|a: int| 0 <= a < batches[k].len() && batches[k][a] == item;
            assert(items[p] == item);
            assert(items[joined.len() + a] == item);
        } else {
            lemma_batches_disjoint(front, joined, j, k, item);
        }
    }
}

} // verus!
