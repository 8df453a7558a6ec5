//! The request handlers: what each administrative and per-dap request asks
//! of the registry, and what it is answered with.

use vstd::prelude::*;
use vstd::string::StringExecFns;
use crate::daps::{Dap, DapUpdateQuery};
use crate::error::{ErrorKind, ServerError, ServerResult};
use crate::manager::{is_target, needs_module, needs_write, updated, DapsManager, Registry};
use crate::module::{from_engine, ModuleError, ModuleRead};
use crate::service::{
    is_content, is_failure, listed, reports, DapInfo, DapResponse, DapUpdateRequest, DapsService,
    HttpReply, ReplyBody,
};
use crate::settings::{DapSettingsError, DapSettingsResult};
use crate::text::{
    lemma_text_le_antisymmetric, lemma_text_le_transitive, text_le, text_precedes,
};

verus! {

/// The names are in dictionary order.
pub open spec fn sorted_by_name(names: Seq<Seq<char>>) -> bool {
    forall|i: int, j: int|
        0 <= i < j < names.len() ==> text_le(#[trigger] names[i], #[trigger] names[j])
}

/// The names of a list of daps.
pub open spec fn names_of(daps: Seq<&Dap>) -> Seq<Seq<char>> {
    daps.map_values(|dap: &Dap| dap@.name)
}

/// `listing` is the public listing of `registry`: it tells of every
/// registered dap but the main dap, of each once and as the registry has
/// it, in the dictionary order of the names.
pub open spec fn is_listing(listing: Seq<DapInfo>, registry: Registry) -> bool {
    &&& forall|i: int|
        0 <= i < listing.len() ==> is_target(registry, (#[trigger] listing[i])@.name)
            && listing[i]@ == listed(registry[listing[i]@.name].dap)
    &&& forall|i: int, j: int|
        0 <= i < j < listing.len() ==> {
            &&& (#[trigger] listing[i])@.name != (#[trigger] listing[j])@.name
            &&& text_le(listing[i]@.name, listing[j]@.name)
        }
    &&& forall|name: Seq<char>|
        is_target(registry, name) ==> exists|i: int|
            0 <= i < listing.len() && (#[trigger] listing[i])@.name == name
}

/// A registry has one listing only: two listings of the same registry tell
/// of the same daps in the same order.
pub proof fn lemma_listing_unique(first: Seq<DapInfo>, second: Seq<DapInfo>, registry: Registry)
    requires
        is_listing(first, registry),
        is_listing(second, registry),
    ensures
        first.len() == second.len(),
        forall|i: int| 0 <= i < first.len() ==> (#[trigger] first[i])@ == second[i]@,
    decreases first.len(),
{
    if first.len() == 0 {
        if second.len() > 0 {
            assert(is_target(registry, second[0]@.name));
        }
    } else {
        let name = first[0]@.name;
        assert(is_target(registry, name));
        let j = choose|j: int| 0 <= j < second.len() && (#[trigger] second[j])@.name == name;
        assert(is_target(registry, second[0]@.name));
        let i = choose|i: int|
            0 <= i < first.len() && (#[trigger] first[i])@.name == second[0]@.name;
        if j > 0 {
            assert(text_le(second[0]@.name, second[j]@.name));
            if i > 0 {
                assert(text_le(first[0]@.name, first[i]@.name));
                lemma_text_le_antisymmetric(name, second[0]@.name);
            }
            assert(second[0]@.name != second[j]@.name);
        }
        assert(j == 0);
        let rest = registry.remove(name);
        lemma_listing_rest(first, registry);
        lemma_listing_rest(second, registry);
        lemma_listing_unique(first.drop_first(), second.drop_first(), rest);
        assert forall|k: int| 0 <= k < first.len() implies (#[trigger] first[k])@ == second[k]@ by {
            if k > 0 {
                assert(first.drop_first()[k - 1] == first[k]);
                assert(second.drop_first()[k - 1] == second[k]);
            }
        }
    }
}

/// A listing without its first dap is the listing of the registry without
/// that dap.
proof fn lemma_listing_rest(listing: Seq<DapInfo>, registry: Registry)
    requires
        is_listing(listing, registry),
        listing.len() > 0,
    ensures
        is_listing(listing.drop_first(), registry.remove(listing[0]@.name)),
{
    let name = listing[0]@.name;
    let rest = registry.remove(name);
    let tail = listing.drop_first();
    assert forall|i: int| 0 <= i < tail.len() implies is_target(rest, (#[trigger] tail[i])@.name)
        && tail[i]@ == listed(rest[tail[i]@.name].dap) by {
        assert(tail[i] == listing[i + 1]);
        assert(listing[0]@.name != listing[i + 1]@.name);
    }
    assert forall|i: int, j: int| 0 <= i < j < tail.len() implies {
        &&& (#[trigger] tail[i])@.name != (#[trigger] tail[j])@.name
        &&& text_le(tail[i]@.name, tail[j]@.name)
    } by {
        assert(tail[i] == listing[i + 1]);
        assert(tail[j] == listing[j + 1]);
    }
    assert forall|other: Seq<char>| is_target(rest, other) implies exists|i: int|
        0 <= i < tail.len() && (#[trigger] tail[i])@.name == other by {
        assert(is_target(registry, other));
        let k = choose|k: int| 0 <= k < listing.len() && (#[trigger] listing[k])@.name == other;
        assert(tail[k - 1] == listing[k]);
    }
}

/// What the reply to a request for an unknown dap says.
pub open spec fn not_found_text(name: Seq<char>) -> Seq<char> {
    "dap not found: "@ + name
}

/// Whether `reply` and the registry `after` are a true outcome of the change
/// that `request` asks of the registry `before`, given how the write and the
/// read went that the change needed.
///
/// A request for the main dap or an unknown dap is answered with 404, and a
/// request that changes nothing with an empty list of changes; neither
/// touches the registry. If the write failed, its failure is reported and
/// the registry is untouched. Otherwise the change is made. Where it
/// enables the dap, the module has to come to run: if its bytes could not be
/// read that is reported, and if they could, either the engine runs them and
/// the change is confirmed, or it does not and the reply is a 500 of class
/// `Module`; in both failures the dap is enabled and without a running
/// module.
pub open spec fn answers_update(
    before: Registry,
    request: DapUpdateRequest,
    saved: DapSettingsResult<()>,
    module: ModuleRead,
    after: Registry,
    reply: HttpReply,
) -> bool {
    let name = request.dap_name@;
    let query = request.query();
    if !is_target(before, name) {
        after == before && is_failure(reply, 404, ErrorKind::NotFound, not_found_text(name))
    } else if !needs_write(before, name, query) {
        after == before && is_content(
            reply,
            DapResponse::Updated(DapUpdateQuery { enabled: None }),
        )
    } else {
        match saved {
            Err(error) => after == before && reports(reply, ServerError::Settings(error)),
            Ok(_) => if !needs_module(before, name, query) {
                after == updated(before, name, query, true, false) && is_content(
                    reply,
                    DapResponse::Updated(query),
                )
            } else {
                match module {
                    Err(reason) => after == updated(before, name, query, true, false) && reports(
                        reply,
                        ServerError::Module(ModuleError::Unreadable(reason)),
                    ),
                    Ok(_) => {
                        ||| after == updated(before, name, query, true, true) && is_content(
                            reply,
                            DapResponse::Updated(query),
                        )
                        ||| after == updated(before, name, query, true, false) && reply.status
                            == 500 && (reply.body matches ReplyBody::Error { kind, .. } && kind
                            == ErrorKind::Module)
                    },
                }
            },
        }
    }
}

/// Putting a dap into a sorted list, behind the daps that come before it and
/// in front of one that comes after it, keeps the list sorted.
proof fn lemma_insert_keeps_order(before: Seq<&Dap>, p: int, dap: &Dap)
    requires
        sorted_by_name(names_of(before)),
        0 <= p <= before.len(),
        forall|k: int| 0 <= k < p ==> text_le((#[trigger] before[k])@.name, dap@.name),
        p < before.len() ==> text_le(dap@.name, before[p]@.name),
    ensures
        sorted_by_name(names_of(before.insert(p, dap))),
{
    let after = before.insert(p, dap);
    let low = names_of(before);
    let high = names_of(after);
    assert forall|a: int, b: int| 0 <= a < b < high.len() implies text_le(
        #[trigger] high[a],
        #[trigger] high[b],
    ) by {
        if b < p {
            assert(text_le(low[a], low[b]));
        } else if b == p {
            assert(text_le(before[a]@.name, dap@.name));
        } else if a < p {
            assert(text_le(low[a], low[b - 1]));
        } else if a == p {
            if b - 1 > p {
                assert(text_le(low[p], low[b - 1]));
                lemma_text_le_transitive(dap@.name, low[p], low[b - 1]);
            }
        } else {
            assert(text_le(low[a - 1], low[b - 1]));
        }
    }
}

/// `picked` holds, each once, those of the first `n` of `daps` that are not
/// the main dap.
spec fn picks(daps: Seq<&Dap>, n: int, picked: Seq<&Dap>) -> bool {
    &&& forall|k: int| 0 <= k < picked.len() ==> !(#[trigger] picked[k])@.is_main()
    &&& forall|k: int| 0 <= k < picked.len() ==> #[trigger] daps.take(n).contains(picked[k])
    &&& forall|j: int| 0 <= j < n && !daps[j]@.is_main() ==> #[trigger] picked.contains(daps[j])
    &&& forall|a: int, b: int|
        0 <= a < b < picked.len() ==> (#[trigger] picked[a])@.name != (#[trigger] picked[b])@.name
}

/// Putting the next dap into the list of those picked so far gives the list
/// of those picked with it.
proof fn lemma_insert_keeps_members(daps: Seq<&Dap>, n: int, before: Seq<&Dap>, p: int)
    requires
        0 <= n < daps.len(),
        0 <= p <= before.len(),
        !daps[n]@.is_main(),
        picks(daps, n, before),
        forall|i: int, j: int|
            0 <= i < j < daps.len() ==> (#[trigger] daps[i])@.name != (#[trigger] daps[j])@.name,
    ensures
        picks(daps, n + 1, before.insert(p, daps[n])),
{
    let after = before.insert(p, daps[n]);
    let wider = daps.take(n + 1);
    assert(wider[n] == daps[n]);
    assert forall|k: int| 0 <= k < before.len() implies #[trigger] wider.contains(before[k])
        && before[k]@.name != daps[n]@.name by {
        assert(daps.take(n).contains(before[k]));
        let j = choose|j: int| 0 <= j < daps.take(n).len() && daps.take(n)[j] == before[k];
        assert(wider[j] == before[k]);
        assert(daps[j]@.name != daps[n]@.name);
    }
    assert forall|k: int| 0 <= k < after.len() implies !(#[trigger] after[k])@.is_main() by {
        if k < p {
            assert(!before[k]@.is_main());
        } else if k > p {
            assert(!before[k - 1]@.is_main());
        }
    }
    assert forall|k: int| 0 <= k < after.len() implies #[trigger] wider.contains(after[k]) by {
        if k < p {
            assert(wider.contains(before[k]));
        } else if k > p {
            assert(wider.contains(before[k - 1]));
        } else {
            assert(wider.contains(daps[n]));
        }
    }
    assert forall|j: int| 0 <= j < n + 1 && !daps[j]@.is_main() implies #[trigger] after.contains(
        daps[j],
    ) by {
        if j < n {
            assert(before.contains(daps[j]));
            let k = choose|k: int| 0 <= k < before.len() && before[k] == daps[j];
            if k < p {
                assert(after[k] == daps[j]);
            } else {
                assert(after[k + 1] == daps[j]);
            }
        } else {
            assert(after[p] == daps[j]);
        }
    }
    assert forall|a: int, b: int| 0 <= a < b < after.len() implies (#[trigger] after[a])@.name != (
    #[trigger] after[b])@.name by {
        let x = if a < p { a } else { a - 1 };
        let y = if b < p { b } else { b - 1 };
        if a == p {
            assert(wider.contains(before[y]));
        } else if b == p {
            assert(wider.contains(before[x]));
        } else {
            assert(before[x]@.name != before[y]@.name);
        }
    }
}

/// Passing over the main dap leaves the list of those picked as it is.
proof fn lemma_skip_keeps_members(daps: Seq<&Dap>, n: int, picked: Seq<&Dap>)
    requires
        0 <= n < daps.len(),
        daps[n]@.is_main(),
        picks(daps, n, picked),
    ensures
        picks(daps, n + 1, picked),
{
    let wider = daps.take(n + 1);
    assert forall|k: int| 0 <= k < picked.len() implies #[trigger] wider.contains(picked[k]) by {
        assert(daps.take(n).contains(picked[k]));
        let j = choose|j: int| 0 <= j < daps.take(n).len() && daps.take(n)[j] == picked[k];
        assert(wider[j] == picked[k]);
    }
}

/// Those of `daps` that are not the main dap, in the dictionary order of
/// their names. The names of `daps` must differ from each other.
fn sort_for_listing<'a>(daps: &Vec<&'a Dap>) -> (r: Vec<&'a Dap>)
    requires
        forall|i: int, j: int|
            0 <= i < j < daps@.len() ==> (#[trigger] daps@[i])@.name != (#[trigger] daps@[j])@.name,
    ensures
        sorted_by_name(names_of(r@)),
        forall|k: int| 0 <= k < r@.len() ==> !(#[trigger] r@[k])@.is_main(),
        forall|k: int| 0 <= k < r@.len() ==> #[trigger] daps@.contains(r@[k]),
        forall|j: int|
            0 <= j < daps@.len() && !daps@[j]@.is_main() ==> #[trigger] r@.contains(daps@[j]),
        forall|a: int, b: int|
            0 <= a < b < r@.len() ==> (#[trigger] r@[a])@.name != (#[trigger] r@[b])@.name,
{
    let mut r: Vec<&'a Dap> = Vec::new();
    let mut i: usize = 0;
    while i < daps.len()
        invariant
            i <= daps@.len(),
            forall|i: int, j: int|
                0 <= i < j < daps@.len() ==> (#[trigger] daps@[i])@.name != (
                #[trigger] daps@[j])@.name,
            sorted_by_name(names_of(r@)),
            picks(daps@, i as int, r@),
        decreases daps@.len() - i,
    {
        let dap = daps[i];
        if !dap.is_main() {
            let mut p: usize = 0;
            while p < r.len() && text_precedes(r[p].name(), dap.name())
                invariant
                    p <= r@.len(),
                    forall|k: int| 0 <= k < p ==> text_le((#[trigger] r@[k])@.name, dap@.name),
                decreases r@.len() - p,
            {
                p = p + 1;
            }
            proof {
                if p < r@.len() {
                    assert(text_le(dap@.name, r@[p as int]@.name));
                }
                lemma_insert_keeps_order(r@, p as int, dap);
                lemma_insert_keeps_members(daps@, i as int, r@, p as int);
            }
            r.insert(p, dap);
        } else {
            proof {
                lemma_skip_keeps_members(daps@, i as int, r@);
            }
        }
        i = i + 1;
    }
    proof {
        assert(daps@.take(i as int) =~= daps@);
        assert forall|k: int| 0 <= k < r@.len() implies #[trigger] daps@.contains(r@[k]) by {
            assert(daps@.take(i as int).contains(r@[k]));
        }
    }
    r
}

/// The public listing of a registry: every registered dap but the main dap,
/// in the dictionary order of the names.
pub fn list_daps(manager: &DapsManager) -> (r: Vec<DapInfo>)
    requires
        manager.wf(),
    ensures
        is_listing(r@, manager@),
{
    let all = manager.daps_iter();
    let sorted = sort_for_listing(&all);
    let mut r: Vec<DapInfo> = Vec::new();
    let mut i: usize = 0;
    while i < sorted.len()
        invariant
            i <= sorted@.len(),
            r@.len() == i,
            forall|k: int| 0 <= k < i ==> (#[trigger] r@[k])@ == listed(sorted@[k]@),
        decreases sorted@.len() - i,
    {
        let dap = sorted[i];
        let settings = dap.settings();
        r.push(
            DapInfo {
                name: String::from_str(dap.name()),
                title: String::from_str(dap.title()),
                enabled: dap.enabled(),
                required: settings.permissions.required,
                allowed: settings.permissions.allowed,
            },
        );
        i = i + 1;
    }
    proof {
        let registry = manager@;
        assert forall|k: int| 0 <= k < r@.len() implies is_target(
            registry,
            (#[trigger] r@[k])@.name,
        ) && r@[k]@ == listed(registry[r@[k]@.name].dap) by {
            assert(all@.contains(sorted@[k]));
            let j = choose|j: int| 0 <= j < all@.len() && all@[j] == sorted@[k];
            assert(registry.contains_key(all@[j]@.name));
        }
        assert forall|a: int, b: int| 0 <= a < b < r@.len() implies (#[trigger] r@[a])@.name != (
        #[trigger] r@[b])@.name && text_le(r@[a]@.name, r@[b]@.name) by {
            assert(sorted@[a]@.name != sorted@[b]@.name);
            assert(text_le(names_of(sorted@)[a], names_of(sorted@)[b]));
        }
        assert forall|name: Seq<char>| is_target(registry, name) implies exists|k: int|
            0 <= k < r@.len() && (#[trigger] r@[k])@.name == name by {
            let j = choose|j: int| 0 <= j < all@.len() && (#[trigger] all@[j])@.name == name;
            assert(!all@[j]@.is_main());
            assert(sorted@.contains(all@[j]));
            let k = choose|k: int| 0 <= k < sorted@.len() && sorted@[k] == all@[j];
            assert(r@[k]@.name == name);
        }
    }
    r
}

/// What a change to a dap, carried out on the registry, ends with: the
/// registry after it, and the response or the failure. See
/// [`DapsManager::update`].
pub open spec fn update_outcome(
    before: Registry,
    request: DapUpdateRequest,
    saved: DapSettingsResult<()>,
    module: ModuleRead,
    after: Registry,
    outcome: ServerResult<DapResponse>,
) -> bool {
    let name = request.dap_name@;
    let query = request.query();
    &&& after == updated(before, name, query, saved is Ok, outcome is Ok)
    &&& match outcome {
        Ok(DapResponse::Updated(done)) => {
            &&& is_target(before, name)
            &&& if needs_write(before, name, query) {
                &&& saved is Ok
                &&& done == query
                &&& needs_module(before, name, query) ==> module is Ok
            } else {
                done.enabled is None
            }
        },
        Ok(_) => false,
        Err(ServerError::DapNotFound(text)) => !is_target(before, name) && text@ == name,
        Err(ServerError::Settings(error)) => needs_write(before, name, query) && saved == Err::<
            (),
            DapSettingsError,
        >(error),
        Err(ServerError::Module(error)) => {
            &&& needs_module(before, name, query)
            &&& saved is Ok
            &&& match module {
                Err(reason) => error matches ModuleError::Unreadable(text) && text == reason,
                Ok(_) => from_engine(error),
            }
        },
        Err(_) => false,
    }
}

/// Answers a request for the public listing: every registered dap but the
/// main dap, in the dictionary order of the names.
pub fn get_daps(service: &mut DapsService) -> (r: HttpReply)
    requires
        old(service).wf(),
    ensures
        final(service).wf(),
        final(service).spec_daps_path() == old(service).spec_daps_path(),
        final(service)@ == old(service)@,
        r.status == 200,
        r.body matches ReplyBody::Content(DapResponse::Daps(listing)) && is_listing(
            listing@,
            old(service)@,
        ),
{
    let operation = |manager: &mut DapsManager| -> (outcome: ServerResult<DapResponse>)
        requires
            old(manager).wf(),
        ensures
            final(manager).wf(),
            *final(manager) == *old(manager),
            outcome matches Ok(DapResponse::Daps(listing)) && is_listing(listing@, old(manager)@),
        { Ok(DapResponse::Daps(list_daps(&*manager))) };
    service.handle_http(operation)
}

/// Answers a request to change a dap, given how the write and the read went
/// that [`DapsService::plan_update`] asked for: see [`answers_update`].
pub fn update_dap(
    service: &mut DapsService,
    request: DapUpdateRequest,
    saved: DapSettingsResult<()>,
    module: ModuleRead,
) -> (r: HttpReply)
    requires
        old(service).wf(),
    ensures
        final(service).wf(),
        final(service).spec_daps_path() == old(service).spec_daps_path(),
        answers_update(old(service)@, request, saved, module, final(service)@, r),
{
    let operation = |manager: &mut DapsManager| -> (outcome: ServerResult<DapResponse>)
        requires
            old(manager).wf(),
        ensures
            final(manager).wf(),
            final(manager).spec_daps_path() == old(manager).spec_daps_path(),
            update_outcome(old(manager)@, request, saved, module, final(manager)@, outcome),
        {
            let (name, query) = request.into_query();
            match manager.update(name.as_str(), query, saved, module) {
                Ok(done) => Ok(DapResponse::Updated(done)),
                Err(error) => Err(error),
            }
        };
    service.handle_http(operation)
}

/// Answers a request for the index document of the dap `name` with the path
/// of the document, or with 404 if no such dap is registered.
pub fn index_file(service: &mut DapsService, name: &str) -> (r: HttpReply)
    requires
        old(service).wf(),
    ensures
        final(service).wf(),
        final(service).spec_daps_path() == old(service).spec_daps_path(),
        final(service)@ == old(service)@,
        if old(service)@.contains_key(name@) {
            &&& r.status == 200
            &&& r.body matches ReplyBody::Content(DapResponse::File(path))
            &&& path@ == old(service)@[name@].dap.index_file()
        } else {
            is_failure(r, 404, ErrorKind::NotFound, not_found_text(name@))
        },
{
    let operation = |manager: &mut DapsManager| -> (outcome: ServerResult<DapResponse>)
        requires
            old(manager).wf(),
        ensures
            final(manager).wf(),
            *final(manager) == *old(manager),
            match outcome {
                Ok(DapResponse::File(path)) => {
                    &&& old(manager)@.contains_key(name@)
                    &&& path@ == old(manager)@[name@].dap.index_file()
                },
                Ok(_) => false,
                Err(ServerError::DapNotFound(text)) => !old(manager)@.contains_key(name@) && text@
                    == name@,
                Err(_) => false,
            },
        {
            match manager.dap(name) {
                Ok(dap) => Ok(DapResponse::File(dap.index_file())),
                Err(error) => Err(error),
            }
        };
    service.handle_http(operation)
}

/// Answers a request for the own handler of the dap `name`: with 200 if the
/// dap holds a running module that can take the request, with 404 if no such
/// dap is registered, and with 503 if the dap holds no running module.
pub fn get(service: &mut DapsService, name: &str) -> (r: HttpReply)
    requires
        old(service).wf(),
    ensures
        final(service).wf(),
        final(service).spec_daps_path() == old(service).spec_daps_path(),
        final(service)@ == old(service)@,
        if !old(service)@.contains_key(name@) {
            is_failure(r, 404, ErrorKind::NotFound, not_found_text(name@))
        } else if old(service)@[name@].loaded {
            is_content(r, DapResponse::Running)
        } else {
            reports(r, ServerError::Module(ModuleError::NotLoaded))
        },
{
    let operation = |manager: &mut DapsManager| -> (outcome: ServerResult<DapResponse>)
        requires
            old(manager).wf(),
        ensures
            final(manager).wf(),
            *final(manager) == *old(manager),
            match outcome {
                Ok(DapResponse::Running) => {
                    &&& old(manager)@.contains_key(name@)
                    &&& old(manager)@[name@].loaded
                },
                Ok(_) => false,
                Err(ServerError::DapNotFound(text)) => !old(manager)@.contains_key(name@) && text@
                    == name@,
                Err(ServerError::Module(ModuleError::NotLoaded)) => old(manager)@.contains_key(
                    name@,
                ) && !old(manager)@[name@].loaded,
                Err(_) => false,
            },
        {
            match manager.instance(name) {
                Ok(_) => Ok(DapResponse::Running),
                Err(error) => Err(error),
            }
        };
    service.handle_http(operation)
}

} // verus!
