//! The RFCOMM channels to try when a service cannot be found by its UUID.
use vstd::prelude::*;

verus! {

/// Whether a channel number may be tried at all.
pub open spec fn usable(channel: u8, highest: u8) -> bool {
    1 <= channel <= highest
}

/// The usable channels of a request, each once, where it occurs first.
pub open spec fn first_uses(channels: Seq<u8>, highest: u8) -> Seq<u8>
    decreases channels.len(),
{
    if channels.len() == 0 {
        Seq::empty()
    } else {
        let sofar = first_uses(channels.drop_last(), highest);
        if usable(channels.last(), highest) && !sofar.contains(channels.last()) {
            sofar.push(channels.last())
        } else {
            sofar
        }
    }
}

/// The order in which channels are tried: the usable ones of the request, or else 5 and 1.
pub open spec fn fallback_order(channels: Seq<u8>, highest: u8) -> Seq<u8> {
    if first_uses(channels, highest).len() == 0 {
        seq![5u8, 1u8]
    } else {
        first_uses(channels, highest)
    }
}

/// Whether `channel` is among `channels`.
fn holds(channels: &Vec<u8>, channel: u8) -> (r: bool)
    ensures
        r == channels@.contains(channel),
{
    let mut i: usize = 0;
    while i < channels.len()
        invariant
            i <= channels@.len(),
            forall|j: int| 0 <= j < i ==> channels@[j] != channel,
        decreases channels@.len() - i,
    {
        if channels[i] == channel {
            assert(channels@[i as int] == channel);
            return true;
        }
        i = i + 1;
    }
    false
}

/// The order in which the channels of a request are tried.
pub fn normalized(channels: &[u8], highest: u8) -> (r: Vec<u8>)
    ensures
        r@ == fallback_order(channels@, highest),
{
    let mut out: Vec<u8> = Vec::new();
    let mut i: usize = 0;
    assert(channels@.take(0) =~= Seq::<u8>::empty());
    while i < channels.len()
        invariant
            i <= channels@.len(),
            out@ == first_uses(channels@.take(i as int), highest),
        decreases channels@.len() - i,
    {
        let channel: u8 = channels[i];
        assert(channels@.take(i + 1).drop_last() =~= channels@.take(i as int));
        if channel >= 1 && channel <= highest && !holds(&out, channel) {
            out.push(channel);
        }
        i = i + 1;
    }
    assert(channels@.take(i as int) =~= channels@);
    if out.len() == 0 {
        out.push(5);
        out.push(1);
        assert(out@ =~= seq![5u8, 1u8]);
    }
    out
}

/// The channels that are tried are usable and distinct, there is at least one, and no
/// usable channel of the request is left out.
pub proof fn law_fallback_order(channels: Seq<u8>, highest: u8)
    requires
        highest >= 5,
    ensures
        fallback_order(channels, highest).len() > 0,
        fallback_order(channels, highest).no_duplicates(),
        forall|i: int|
            0 <= i < fallback_order(channels, highest).len() ==> usable(
                #[trigger] fallback_order(channels, highest)[i],
                highest,
            ),
        forall|i: int|
            0 <= i < channels.len() && usable(#[trigger] channels[i], highest) ==> fallback_order(
                channels,
                highest,
            ).contains(channels[i]),
{
    lemma_first_uses(channels, highest);
    if first_uses(channels, highest).len() == 0 {
        assert forall|i: int| 0 <= i < channels.len() && usable(#[trigger] channels[i], highest)
            implies false by {
            assert(first_uses(channels, highest).contains(channels[i]));
        }
    }
}

/// The order of a request that was put in order is that order.
pub proof fn law_fallback_order_is_stable(channels: Seq<u8>, highest: u8)
    requires
        highest >= 5,
    ensures
        fallback_order(fallback_order(channels, highest), highest) == fallback_order(
            channels,
            highest,
        ),
{
    law_fallback_order(channels, highest);
    lemma_first_uses_of_distinct(fallback_order(channels, highest), highest);
}

/// A request that names its channels twice has the same order as one that names them once.
pub proof fn law_repeated_channels_change_nothing(channels: Seq<u8>, highest: u8)
    ensures
        fallback_order(channels + channels, highest) == fallback_order(channels, highest),
{
    lemma_first_uses(channels, highest);
    lemma_known_channels_add_nothing(channels, channels, highest);
}

/// The channels that are tried are those of the request from one to the highest, each once; a
/// request whose channels all can be used and differ is its own order, and one without any channel
/// that can be used becomes five and one.
pub proof fn law_channels_that_can_be_used(channels: Seq<u8>, highest: u8)
    requires
        highest >= 5,
    ensures
        ({
            let order = fallback_order(channels, highest);
            &&& order.len() > 0
            &&& forall|i: int| 0 <= i < order.len() ==> 1 <= #[trigger] order[i] <= highest
            &&& forall|i: int, j: int| 0 <= i < j < order.len() ==> order[i] != order[j]
            &&& forall|i: int|
                0 <= i < channels.len() && 1 <= #[trigger] channels[i] <= highest
                    ==> order.contains(channels[i])
            &&& channels.len() > 0 && channels.no_duplicates() && (forall|i: int|
                0 <= i < channels.len() ==> 1 <= #[trigger] channels[i] <= highest) ==> order
                == channels
            &&& (forall|i: int|
                0 <= i < channels.len() ==> !(1 <= #[trigger] channels[i] <= highest)) ==> order
                == seq![5u8, 1u8]
        }),
{
    law_fallback_order(channels, highest);
    lemma_uses_are_requested(channels, highest);
    let order = fallback_order(channels, highest);
    assert forall|i: int| 0 <= i < order.len() implies 1 <= #[trigger] order[i] <= highest by {
        assert(usable(order[i], highest));
    }
    assert forall|i: int|
        0 <= i < channels.len() && 1 <= #[trigger] channels[i] <= highest implies order.contains(
        channels[i],
    ) by {
        assert(usable(channels[i], highest));
    }
    if channels.len() > 0 && channels.no_duplicates() && (forall|i: int|
        0 <= i < channels.len() ==> 1 <= #[trigger] channels[i] <= highest) {
        assert forall|i: int| 0 <= i < channels.len() implies usable(
            #[trigger] channels[i],
            highest,
        ) by {
            assert(1 <= channels[i] <= highest);
        }
        lemma_first_uses_of_distinct(channels, highest);
    }
    if forall|i: int| 0 <= i < channels.len() ==> !(1 <= #[trigger] channels[i] <= highest) {
        let uses = first_uses(channels, highest);
        if uses.len() > 0 {
            assert(channels.contains(uses[0]));
            let i = channels.index_of(uses[0]);
            lemma_first_uses(channels, highest);
            assert(usable(uses[0], highest));
            assert(1 <= channels[i] <= highest);
        }
    }
}

/// One more channel at the end of a request that has one that can be used is tried last, where it
/// can be used and was not named before, and changes nothing otherwise.
pub proof fn law_channels_are_tried_in_the_order_of_the_request(
    channels: Seq<u8>,
    i: int,
    channel: u8,
    highest: u8,
)
    requires
        0 <= i < channels.len(),
        1 <= channels[i] <= highest,
    ensures
        1 <= channel <= highest && !channels.contains(channel) ==> fallback_order(
            channels.push(channel),
            highest,
        ) == fallback_order(channels, highest).push(channel),
        !(1 <= channel <= highest) || channels.contains(channel) ==> fallback_order(
            channels.push(channel),
            highest,
        ) == fallback_order(channels, highest),
{
    lemma_first_uses(channels, highest);
    lemma_uses_are_requested(channels, highest);
    let uses = first_uses(channels, highest);
    assert(usable(channels[i], highest));
    assert(uses.contains(channels[i]));
    assert(uses.len() > 0);
    assert(channels.push(channel).drop_last() =~= channels);
    if usable(channel, highest) && channels.contains(channel) {
        assert(usable(channels[channels.index_of(channel)], highest));
    }
    if uses.contains(channel) {
        assert(channels.contains(channel));
    }
}

/// Where no channel before it can be used, a channel that can be used is the only one to try.
pub proof fn law_first_channel_that_can_be_used(channels: Seq<u8>, channel: u8, highest: u8)
    requires
        forall|i: int| 0 <= i < channels.len() ==> !(1 <= #[trigger] channels[i] <= highest),
        1 <= channel <= highest,
    ensures
        fallback_order(channels.push(channel), highest) == seq![channel],
{
    lemma_first_uses(channels, highest);
    lemma_uses_are_requested(channels, highest);
    let uses = first_uses(channels, highest);
    if uses.len() > 0 {
        assert(channels.contains(uses[0]));
        let i = channels.index_of(uses[0]);
        assert(usable(uses[0], highest));
        assert(1 <= channels[i] <= highest);
    }
    assert(channels.push(channel).drop_last() =~= channels);
    assert(uses.push(channel) =~= seq![channel]);
}

proof fn lemma_uses_are_requested(channels: Seq<u8>, highest: u8)
    ensures
        forall|channel: u8| #[trigger]
            first_uses(channels, highest).contains(channel) ==> channels.contains(channel),
        forall|i: int|
            0 <= i < first_uses(channels, highest).len() ==> channels.contains(
                #[trigger] first_uses(channels, highest)[i],
            ),
    decreases channels.len(),
{
    if channels.len() > 0 {
        let init = channels.drop_last();
        lemma_uses_are_requested(init, highest);
        let sofar = first_uses(init, highest);
        let all = first_uses(channels, highest);
        assert forall|channel: u8| #[trigger] all.contains(channel) implies channels.contains(
            channel,
        ) by {
            let k = all.index_of(channel);
            if k < sofar.len() {
                assert(sofar[k] == channel);
                assert(init.contains(channel));
                assert(channels[init.index_of(channel)] == channel);
            } else {
                assert(channels[channels.len() - 1] == channel);
            }
        }
        assert forall|i: int| 0 <= i < all.len() implies channels.contains(
            #[trigger] all[i],
        ) by {
            assert(all.contains(all[i]));
        }
    }
}

proof fn lemma_known_channels_add_nothing(channels: Seq<u8>, more: Seq<u8>, highest: u8)
    requires
        forall|i: int|
            0 <= i < more.len() && usable(#[trigger] more[i], highest) ==> first_uses(
                channels,
                highest,
            ).contains(more[i]),
    ensures
        first_uses(channels + more, highest) == first_uses(channels, highest),
    decreases more.len(),
{
    if more.len() == 0 {
        assert(channels + more =~= channels);
    } else {
        let init = more.drop_last();
        assert forall|i: int| 0 <= i < init.len() && usable(#[trigger] init[i], highest) implies
            first_uses(channels, highest).contains(init[i]) by {
            assert(init[i] == more[i]);
        }
        lemma_known_channels_add_nothing(channels, init, highest);
        assert((channels + more).drop_last() =~= channels + init);
        assert(usable(more[more.len() - 1], highest) ==> first_uses(channels, highest).contains(
            more.last(),
        ));
    }
}

proof fn lemma_first_uses(channels: Seq<u8>, highest: u8)
    ensures
        first_uses(channels, highest).no_duplicates(),
        forall|i: int|
            0 <= i < first_uses(channels, highest).len() ==> usable(
                #[trigger] first_uses(channels, highest)[i],
                highest,
            ),
        forall|i: int|
            0 <= i < channels.len() && usable(#[trigger] channels[i], highest) ==> first_uses(
                channels,
                highest,
            ).contains(channels[i]),
    decreases channels.len(),
{
    if channels.len() > 0 {
        let init = channels.drop_last();
        let last = channels.last();
        lemma_first_uses(init, highest);
        let sofar = first_uses(init, highest);
        let all = first_uses(channels, highest);
        assert forall|c: u8| sofar.contains(c) implies all.contains(c) by {
            let k = sofar.index_of(c);
            assert(sofar[k] == c);
            assert(all[k] == c);
        }
        assert forall|i: int| 0 <= i < channels.len() && usable(#[trigger] channels[i], highest)
            implies all.contains(channels[i]) by {
            if i < init.len() {
                assert(init[i] == channels[i]);
                assert(sofar.contains(init[i]));
            } else if !sofar.contains(last) {
                assert(all[all.len() - 1] == last);
            }
        }
    }
}

proof fn lemma_first_uses_of_distinct(channels: Seq<u8>, highest: u8)
    requires
        channels.no_duplicates(),
        forall|i: int| 0 <= i < channels.len() ==> usable(#[trigger] channels[i], highest),
    ensures
        first_uses(channels, highest) == channels,
    decreases channels.len(),
{
    if channels.len() > 0 {
        let init = channels.drop_last();
        assert forall|i: int| 0 <= i < init.len() implies usable(#[trigger] init[i], highest) by {
            assert(init[i] == channels[i]);
        }
        lemma_first_uses_of_distinct(init, highest);
        assert(!init.contains(channels.last())) by {
            if init.contains(channels.last()) {
                let k = init.index_of(channels.last());
                assert(channels[k] == channels[channels.len() - 1]);
            }
        }
        assert(init.push(channels.last()) =~= channels);
    }
}

} // verus!
