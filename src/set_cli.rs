use crate::display_args::DisplayArgs;
use crate::maps::{new_settings, settings_contains, settings_insert, settings_of, SettingsMap};
use vstd::prelude::*;

verus! {

/// A batch of requests that names each display once.
pub struct SetCli {
    /// The refresh rate requested for each display index.
    pub display_settings: SettingsMap,
}

impl SetCli {
    /// The requested refresh rate of each display index.
    pub open spec fn view(&self) -> Map<u32, u32> {
        settings_of(self.display_settings)
    }
}

/// The settings that the requests `ts` make when the first request for an
/// index is kept: index to refresh rate.
pub open spec fn first_settings(ts: Seq<DisplayArgs>) -> Map<u32, u32>
    decreases ts.len(),
{
    if ts.len() == 0 {
        Map::empty()
    } else {
        let m = first_settings(ts.drop_last());
        if m.contains_key(ts.last().0) {
            m
        } else {
            m.insert(ts.last().0, ts.last().1.refresh_rate)
        }
    }
}

/// The requests of `ts` that name an index that an earlier request of `ts`
/// already names, in their order.
pub open spec fn duplicates(ts: Seq<DisplayArgs>) -> Seq<DisplayArgs>
    decreases ts.len(),
{
    if ts.len() == 0 {
        Seq::empty()
    } else {
        let d = duplicates(ts.drop_last());
        if first_settings(ts.drop_last()).contains_key(ts.last().0) {
            d.push(ts.last())
        } else {
            d
        }
    }
}

/// The batch names exactly the indices that the requests name.
pub proof fn lemma_settings_keys(ts: Seq<DisplayArgs>, k: u32)
    ensures
        first_settings(ts).contains_key(k) <==> exists|j: int| 0 <= j < ts.len() && ts[j].0 == k,
    decreases ts.len(),
{
    if ts.len() > 0 {
        let p = ts.drop_last();
        lemma_settings_keys(p, k);
        if exists|j: int| 0 <= j < p.len() && p[j].0 == k {
            let j = choose|j: int| 0 <= j < p.len() && p[j].0 == k;
            assert(ts[j] == p[j]);
        }
        if exists|j: int| 0 <= j < ts.len() && ts[j].0 == k {
            let j = choose|j: int| 0 <= j < ts.len() && ts[j].0 == k;
            if j < p.len() {
                assert(ts[j] == p[j]);
            }
        }
    }
}

/// The first request for an index is the one that the batch keeps.
pub proof fn lemma_first_request_kept(ts: Seq<DisplayArgs>, i: int)
    requires
        0 <= i < ts.len(),
        forall|j: int| 0 <= j < i ==> #[trigger] ts[j].0 != ts[i].0,
    ensures
        first_settings(ts).contains_key(ts[i].0),
        first_settings(ts)[ts[i].0] == ts[i].1.refresh_rate,
    decreases ts.len(),
{
    let p = ts.drop_last();
    if i < p.len() {
        assert(forall|j: int| 0 <= j < i ==> ts[j] == p[j]);
        lemma_first_request_kept(p, i);
        assert(p[i] == ts[i]);
    } else {
        lemma_settings_keys(p, ts[i].0);
        assert forall|j: int| 0 <= j < p.len() implies p[j].0 != ts[i].0 by {
            assert(p[j] == ts[j]);
        }
    }
}

/// Every request that follows another request for the same index is
/// rejected.
pub proof fn lemma_later_request_rejected(ts: Seq<DisplayArgs>, j: int, i: int)
    requires
        0 <= j < i < ts.len(),
        ts[j].0 == ts[i].0,
    ensures
        duplicates(ts).contains(ts[i]),
    decreases ts.len(),
{
    let p = ts.drop_last();
    lemma_duplicates_grow(ts);
    if i < p.len() {
        lemma_later_request_rejected(p, j, i);
        assert(p[i] == ts[i]);
        let k = choose|k: int| 0 <= k < duplicates(p).len() && duplicates(p)[k] == p[i];
        assert(duplicates(ts)[k] == ts[i]);
    } else {
        assert(p[j] == ts[j]);
        lemma_settings_keys(p, ts[i].0);
        assert(duplicates(ts) == duplicates(p).push(ts[i]));
        assert(duplicates(ts)[duplicates(p).len() as int] == ts[i]);
    }
}

/// The rejections of a prefix stay rejections of the whole.
proof fn lemma_duplicates_grow(ts: Seq<DisplayArgs>)
    requires
        ts.len() > 0,
    ensures
        duplicates(ts.drop_last()).len() <= duplicates(ts).len(),
        forall|k: int|
            0 <= k < duplicates(ts.drop_last()).len() ==> duplicates(ts)[k] == #[trigger] duplicates(
                ts.drop_last(),
            )[k],
{
}

/// A batch whose requests name distinct indices is accepted whole.
pub proof fn lemma_distinct_accepted(ts: Seq<DisplayArgs>)
    requires
        forall|i: int, j: int| 0 <= i < j < ts.len() ==> ts[i].0 != ts[j].0,
    ensures
        duplicates(ts).len() == 0,
        forall|i: int|
            0 <= i < ts.len() ==> first_settings(ts).contains_key(#[trigger] ts[i].0)
                && first_settings(ts)[ts[i].0] == ts[i].1.refresh_rate,
    decreases ts.len(),
{
    if ts.len() > 0 {
        let p = ts.drop_last();
        assert forall|i: int, j: int| 0 <= i < j < p.len() implies p[i].0 != p[j].0 by {
            assert(p[i] == ts[i] && p[j] == ts[j]);
        }
        lemma_distinct_accepted(p);
        lemma_settings_keys(p, ts.last().0);
        assert forall|j: int| 0 <= j < p.len() implies p[j].0 != ts.last().0 by {
            assert(p[j] == ts[j]);
        }
    }
    assert forall|i: int| 0 <= i < ts.len() implies first_settings(ts).contains_key(
        #[trigger] ts[i].0,
    ) && first_settings(ts)[ts[i].0] == ts[i].1.refresh_rate by {
        lemma_first_request_kept(ts, i);
    }
}

/// Checks that the requests `refresh_rates` name each display once.
///
/// On success the batch maps each index to its requested rate. Otherwise no
/// batch is made, and the result lists every request after the first one for
/// its index, in command-line order.
pub fn validate_set_cli(refresh_rates: Vec<DisplayArgs>) -> (r: Result<SetCli, Vec<DisplayArgs>>)
    ensures
        r is Ok <==> duplicates(refresh_rates@).len() == 0,
        r matches Ok(cli) ==> cli@ == first_settings(refresh_rates@),
        r matches Err(errors) ==> errors@ == duplicates(refresh_rates@),
{
    let mut errors: Vec<DisplayArgs> = Vec::new();
    let mut settings = new_settings();
    let mut i: usize = 0;
    while i < refresh_rates.len()
        invariant
            i <= refresh_rates@.len(),
            settings_of(settings) == first_settings(refresh_rates@.subrange(0, i as int)),
            errors@ == duplicates(refresh_rates@.subrange(0, i as int)),
        decreases refresh_rates@.len() - i,
    {
        let args = refresh_rates[i];
        let ghost prefix = refresh_rates@.subrange(0, i as int);
        let ghost next = refresh_rates@.subrange(0, i + 1 as int);
        assert(next.drop_last() =~= prefix);
        assert(next.last() == args);
        if settings_contains(&settings, args.0) {
            errors.push(args);
        } else {
            settings_insert(&mut settings, args.0, args.1);
        }
        i = i + 1;
    }
    assert(refresh_rates@.subrange(0, refresh_rates@.len() as int) =~= refresh_rates@);
    if errors.len() == 0 {
        Ok(SetCli { display_settings: settings })
    } else {
        Err(errors)
    }
}

} // verus!
