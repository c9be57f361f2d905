//! Properties that hold across the multiplexer's operations.

use vstd::prelude::*;

use crate::mux::{
    has_key, last_reply, lists_key, offered_after, record_identities, table_after, Identity,
    Listing, MuxAgent, Refresh,
};

use crate::cli::{
    config_expansion, expand_all, expansion_of, layered, lookup_var, ok_text, Config, ExpandContext,
    Expansion,
};
use crate::service::{
    expected_event, next_service_step, ServiceAction, ServiceArgs, ServiceError, ServiceEvent,
    ServicePhase, ServiceReport,
};

verus! {

proof fn lemma_record_identities(m: Map<Seq<u8>, usize>, ids: Seq<Identity>, a: usize, k: Seq<u8>)
    ensures
        record_identities(m, ids, a).contains_key(k) <==> (m.contains_key(k) || has_key(ids, k)),
        has_key(ids, k) && !m.contains_key(k) ==> record_identities(m, ids, a)[k] == a,
        m.contains_key(k) ==> record_identities(m, ids, a)[k] == m[k],
    decreases ids.len(),
{
    if ids.len() > 0 {
        let init = ids.drop_last();
        lemma_record_identities(m, init, a, k);
        if has_key(ids, k) && ids.last().key@ != k {
            let j = choose|j: int| 0 <= j < ids.len() && (#[trigger] ids[j]).key@ == k;
            assert(j < ids.len() - 1);
            assert(init[j] == ids[j]);
        }
        if has_key(init, k) {
            let j = choose|j: int| 0 <= j < init.len() && (#[trigger] init[j]).key@ == k;
            assert(ids[j] == init[j]);
        }
        if ids.last().key@ == k {
            assert(ids[ids.len() - 1].key@ == k);
        }
    }
}

/// The key table after asking the agents that answered `listings` (in
/// configuration order) holds exactly the keys some agent listed, and maps
/// each to the first agent that listed it.
pub proof fn law_refreshed_table(listings: Seq<Listing<()>>, k: Seq<u8>)
    requires
        listings.len() <= usize::MAX,
    ensures
        table_after(listings).contains_key(k) <==> exists|a: int|
            0 <= a < listings.len() && lists_key(#[trigger] listings[a], k),
        table_after(listings).contains_key(k) ==> {
            let a = table_after(listings)[k] as int;
            &&& 0 <= a < listings.len()
            &&& lists_key(listings[a], k)
            &&& forall|b: int| 0 <= b < a ==> !lists_key(#[trigger] listings[b], k)
        },
    decreases listings.len(),
{
    if listings.len() > 0 {
        let init = listings.drop_last();
        let n = listings.len() - 1;
        law_refreshed_table(init, k);
        assert forall|a: int| 0 <= a < n implies #[trigger] listings[a] == init[a] by {}
        match listings.last() {
            Listing::Listed(ids) => {
                lemma_record_identities(table_after(init), ids@, n as usize, k);
                assert(listings[n] == listings.last());
                if table_after(init).contains_key(k) {
                    let a = table_after(init)[k] as int;
                    assert(listings[a] == init[a]);
                }
                if exists|a: int| 0 <= a < listings.len() && lists_key(#[trigger] listings[a], k) {
                    let a = choose|a: int| 0 <= a < listings.len() && lists_key(#[trigger] listings[a], k);
                    if a < n {
                        assert(lists_key(init[a], k));
                    }
                }
            },
            _ => {
                assert(listings[n] == listings.last());
                assert(!lists_key(listings[n], k));
                if table_after(init).contains_key(k) {
                    let a = table_after(init)[k] as int;
                    assert(listings[a] == init[a]);
                }
                if exists|a: int| 0 <= a < listings.len() && lists_key(#[trigger] listings[a], k) {
                    let a = choose|a: int| 0 <= a < listings.len() && lists_key(#[trigger] listings[a], k);
                    assert(a < n);
                    assert(lists_key(init[a], k));
                }
            },
        }
    }
}

/// The identities a refresh offers to the client are exactly those listed
/// by the reachable agents, in configuration order: an identity is offered
/// if and only if some agent listed it.
pub proof fn law_offered_identities(listings: Seq<Listing<()>>, id: Identity)
    ensures
        offered_after(listings).contains(id) <==> exists|a: int|
            0 <= a < listings.len() && (#[trigger] listings[a] matches Listing::Listed(ids)
                && ids@.contains(id)),
    decreases listings.len(),
{
    if listings.len() > 0 {
        let init = listings.drop_last();
        let n = listings.len() - 1;
        law_offered_identities(init, id);
        assert forall|a: int| 0 <= a < n implies #[trigger] listings[a] == init[a] by {}
        assert(listings[n] == listings.last());
        match listings.last() {
            Listing::Listed(ids) => {
                let prev = offered_after(init);
                let all = prev + ids@;
                if all.contains(id) {
                    let j = choose|j: int| 0 <= j < all.len() && all[j] == id;
                    if j < prev.len() {
                        assert(prev[j] == id);
                    } else {
                        assert(ids@[j - prev.len()] == id);
                    }
                }
                if prev.contains(id) {
                    let j = choose|j: int| 0 <= j < prev.len() && prev[j] == id;
                    assert(all[j] == id);
                }
                if ids@.contains(id) {
                    let j = choose|j: int| 0 <= j < ids@.len() && ids@[j] == id;
                    assert(all[prev.len() + j] == id);
                }
            },
            _ => {},
        }
    }
}

/// A broadcast settles on some agent's reply exactly when at least one agent
/// replied, and then on the reply of the last agent that did.
pub proof fn law_last_reply<R>(replies: Seq<Option<R>>)
    ensures
        last_reply(replies) is Some <==> exists|i: int| 0 <= i < replies.len() && #[trigger] replies[i] is Some,
        last_reply(replies) is Some ==> exists|i: int|
            0 <= i < replies.len() && #[trigger] replies[i] == last_reply(replies)
                && forall|j: int| i < j < replies.len() ==> #[trigger] replies[j] is None,
    decreases replies.len(),
{
    if replies.len() > 0 {
        let init = replies.drop_last();
        let n = replies.len() - 1;
        law_last_reply(init);
        assert forall|a: int| 0 <= a < n implies #[trigger] replies[a] == init[a] by {}
        assert(replies[n] == replies.last());
        if replies.last() is None {
            if exists|i: int| 0 <= i < replies.len() && #[trigger] replies[i] is Some {
                let i = choose|i: int| 0 <= i < replies.len() && #[trigger] replies[i] is Some;
                assert(init[i] is Some);
            }
            if last_reply(init) is Some {
                let i = choose|i: int|
                    0 <= i < init.len() && #[trigger] init[i] == last_reply(init)
                        && forall|j: int| i < j < init.len() ==> #[trigger] init[j] is None;
                assert(replies[i] == last_reply(replies));
                assert forall|j: int| i < j < replies.len() implies #[trigger] replies[j] is None by {
                    if j < n {
                        assert(init[j] is None);
                    }
                }
            }
        }
    }
}

/// How many identities an agent's answer contributes.
pub open spec fn listed_count(l: Listing<()>) -> nat {
    match l {
        Listing::Listed(ids) => ids@.len(),
        _ => 0,
    }
}

/// Where the identities of agent `a` start among the offered identities: the
/// number listed by the agents before it.
pub open spec fn offset_of(listings: Seq<Listing<()>>, a: int) -> nat
    decreases a,
{
    if a <= 0 {
        0
    } else {
        offset_of(listings, a - 1) + listed_count(listings[a - 1])
    }
}

proof fn lemma_offset_prefix(listings: Seq<Listing<()>>, k: int, a: int)
    requires
        0 <= a <= k <= listings.len(),
    ensures
        offset_of(listings.subrange(0, k), a) == offset_of(listings, a),
    decreases a,
{
    if a > 0 {
        lemma_offset_prefix(listings, k, a - 1);
        assert(listings.subrange(0, k)[a - 1] == listings[a - 1]);
    }
}

/// The identities are offered agent by agent, in configuration order: those
/// of agent `a` form one block, in the agent's own order, after the blocks of
/// every earlier agent. So the keys of an earlier agent are offered first.
pub proof fn law_offered_in_agent_order(listings: Seq<Listing<()>>, a: int)
    requires
        0 <= a < listings.len(),
    ensures
        offered_after(listings).len() == offset_of(listings, listings.len() as int),
        offset_of(listings, a) + listed_count(listings[a]) == offset_of(listings, a + 1),
        offset_of(listings, a + 1) <= offered_after(listings).len(),
        listings[a] matches Listing::Listed(ids) ==> offered_after(listings).subrange(
            offset_of(listings, a) as int,
            (offset_of(listings, a) + ids@.len()) as int,
        ) == ids@,
    decreases listings.len(),
{
    let n = listings.len() - 1;
    let init = listings.drop_last();
    assert(init =~= listings.subrange(0, n));
    lemma_offset_prefix(listings, n, n);
    lemma_offset_prefix(listings, n, a);
    assert(listings[n] == listings.last());
    if n > 0 {
        if a < n {
            law_offered_in_agent_order(init, a);
            assert(init[a] == listings[a]);
            lemma_offset_prefix(listings, n, a + 1);
        } else {
            law_offered_in_agent_order(init, n - 1);
        }
    }
    let prev = offered_after(init);
    if n == 0 {
        assert(prev.len() == 0);
    }
    assert(prev.len() == offset_of(listings, n));
    match listings.last() {
        Listing::Listed(ids) => {
            assert(offered_after(listings) == prev + ids@);
            if a < n {
                let lo = offset_of(listings, a) as int;
                let hi = offset_of(listings, a + 1) as int;
                assert((prev + ids@).subrange(lo, hi) =~= prev.subrange(lo, hi));
            } else {
                assert((prev + ids@).subrange(prev.len() as int, (prev.len() + ids@.len()) as int) =~= ids@);
            }
        },
        _ => {},
    }
}

/// Reading a key back from the key table after writing it gives the agent
/// written; every other key keeps its agent, or stays absent.
pub proof fn law_known_keys_read_after_write(
    before: Map<Seq<u8>, usize>,
    key: Seq<u8>,
    agent: usize,
    other: Seq<u8>,
)
    ensures
        before.insert(key, agent).contains_key(key),
        before.insert(key, agent)[key] == agent,
        other != key ==> before.insert(key, agent).contains_key(other) == before.contains_key(other),
        other != key && before.contains_key(other) ==> before.insert(key, agent)[other] == before[other],
{
}

/// A key is among the offered identities exactly when some agent listed it.
proof fn lemma_offered_keys(listings: Seq<Listing<()>>, k: Seq<u8>)
    ensures
        has_key(offered_after(listings), k) <==> exists|a: int|
            0 <= a < listings.len() && lists_key(#[trigger] listings[a], k),
    decreases listings.len(),
{
    if listings.len() > 0 {
        let init = listings.drop_last();
        let n = listings.len() - 1;
        lemma_offered_keys(init, k);
        assert forall|a: int| 0 <= a < n implies #[trigger] listings[a] == init[a] by {}
        assert(listings[n] == listings.last());
        let prev = offered_after(init);
        match listings.last() {
            Listing::Listed(ids) => {
                let all = prev + ids@;
                if has_key(all, k) {
                    let j = choose|j: int| 0 <= j < all.len() && (#[trigger] all[j]).key@ == k;
                    if j < prev.len() {
                        assert(prev[j] == all[j]);
                        let a = choose|a: int| 0 <= a < init.len() && lists_key(#[trigger] init[a], k);
                        assert(listings[a] == init[a]);
                    } else {
                        assert(ids@[j - prev.len()] == all[j]);
                        assert(lists_key(listings[n], k));
                    }
                }
                if exists|a: int| 0 <= a < listings.len() && lists_key(#[trigger] listings[a], k) {
                    let a = choose|a: int| 0 <= a < listings.len() && lists_key(#[trigger] listings[a], k);
                    if a < n {
                        assert(lists_key(init[a], k));
                        let j = choose|j: int| 0 <= j < prev.len() && (#[trigger] prev[j]).key@ == k;
                        assert(all[j] == prev[j]);
                    } else {
                        let j = choose|j: int| 0 <= j < ids@.len() && (#[trigger] ids@[j]).key@ == k;
                        assert(all[prev.len() + j] == ids@[j]);
                    }
                }
            },
            _ => {
                if exists|a: int| 0 <= a < listings.len() && lists_key(#[trigger] listings[a], k) {
                    let a = choose|a: int| 0 <= a < listings.len() && lists_key(#[trigger] listings[a], k);
                    assert(a < n);
                    assert(lists_key(init[a], k));
                }
                if has_key(prev, k) {
                    let a = choose|a: int| 0 <= a < init.len() && lists_key(#[trigger] init[a], k);
                    assert(listings[a] == init[a]);
                }
            },
        }
    }
}

/// After a refresh, the key table holds exactly the keys of the identities
/// the refresh offers (keys from before the refresh that no agent offers
/// any more are gone), and maps each to a configured agent whose answer in
/// this refresh listed it, the first such agent in configuration order.
pub proof fn law_refresh_table_is_offered_keys(m: MuxAgent, r: Refresh, k: Seq<u8>)
    requires
        m.wf(),
        r.wf(),
        r.listings() == m.heard(),
        m.agents().len() <= usize::MAX,
    ensures
        m.known().contains_key(k) <==> has_key(r.collected(), k),
        m.known().contains_key(k) ==> {
            let a = m.known()[k] as int;
            &&& 0 <= a < m.agents().len()
            &&& lists_key(m.heard()[a], k)
            &&& forall|b: int| 0 <= b < a ==> !lists_key(#[trigger] m.heard()[b], k)
        },
{
    law_refreshed_table(m.heard(), k);
    lemma_offered_keys(m.heard(), k);
}

/// A setting given on the command line is the one used, whatever the
/// configuration file says; only a setting the command line leaves out is
/// taken from the file, and only one that both leave out gets the default.
pub proof fn law_command_line_wins<T>(args: Option<T>, file: Option<T>, default: T)
    ensures
        args matches Some(v) ==> layered(args, file, default) == v,
        args is None ==> (file matches Some(v) ==> layered(args, file, default) == v),
        args is None && file is None ==> layered(args, file, default) == default,
{
}

/// A variable is looked up by its exact name: the value found is that of the
/// first variable with exactly that name, and nothing is found when no
/// variable has it.
pub proof fn law_lookup_exact_name(vars: Seq<(Seq<char>, Seq<char>)>, name: Seq<char>)
    ensures
        lookup_var(vars, name) matches Some(v) ==> exists|i: int|
            0 <= i < vars.len() && (#[trigger] vars[i]).0 == name && vars[i].1 == v && forall|j: int|
                0 <= j < i ==> (#[trigger] vars[j]).0 != name,
        lookup_var(vars, name) is None <==> forall|i: int| 0 <= i < vars.len() ==> (#[trigger] vars[i]).0 != name,
    decreases vars.len(),
{
    if vars.len() > 0 {
        let rest = vars.drop_first();
        law_lookup_exact_name(rest, name);
        assert forall|i: int| 0 <= i < rest.len() implies #[trigger] rest[i] == vars[i + 1] by {}
        if vars[0].0 != name {
            if let Some(v) = lookup_var(rest, name) {
                let i = choose|i: int|
                    0 <= i < rest.len() && (#[trigger] rest[i]).0 == name && rest[i].1 == v && forall|j: int|
                        0 <= j < i ==> (#[trigger] rest[j]).0 != name;
                assert(vars[i + 1] == rest[i]);
                assert forall|j: int| 0 <= j < i + 1 implies (#[trigger] vars[j]).0 != name by {
                    if j > 0 {
                        assert(vars[j] == rest[j - 1]);
                    }
                }
            }
            if forall|i: int| 0 <= i < vars.len() ==> (#[trigger] vars[i]).0 != name {
                assert forall|i: int| 0 <= i < rest.len() implies (#[trigger] rest[i]).0 != name by {
                    assert(vars[i + 1] == rest[i]);
                }
            }
            if lookup_var(rest, name) is None {
                assert forall|i: int| 0 <= i < vars.len() implies (#[trigger] vars[i]).0 != name by {
                    if i > 0 {
                        assert(vars[i] == rest[i - 1]);
                    }
                }
            }
        }
    }
}

/// The expansions of a list of paths, taken one path at a time.
proof fn lemma_expand_all_pathwise(paths: Seq<String>, ctx: ExpandContext)
    ensures
        expand_all(paths, ctx) matches Ok(ps) ==> ps.len() == paths.len() && forall|i: int|
            0 <= i < paths.len() ==> expansion_of(#[trigger] paths[i]@, ctx) == ok_text(ps[i]),
        (forall|i: int| 0 <= i < paths.len() ==> (#[trigger] expansion_of(paths[i]@, ctx)) is Ok)
            ==> expand_all(paths, ctx) is Ok,
        expand_all(paths, ctx) matches Err(n) ==> exists|i: int|
            0 <= i < paths.len() && expansion_of(#[trigger] paths[i]@, ctx) == Err::<
                Seq<char>,
                (Seq<char>, Option<Seq<char>>),
            >(n),
    decreases paths.len(),
{
    if paths.len() > 0 {
        let init = paths.drop_last();
        let n = paths.len() - 1;
        lemma_expand_all_pathwise(init, ctx);
        assert forall|i: int| 0 <= i < n implies #[trigger] init[i] == paths[i] by {}
        assert(paths.last() == paths[n]);
        if forall|i: int| 0 <= i < paths.len() ==> (#[trigger] expansion_of(paths[i]@, ctx)) is Ok {
            assert forall|i: int| 0 <= i < init.len() implies (#[trigger] expansion_of(init[i]@, ctx)) is Ok by {
                assert(init[i] == paths[i]);
                assert(expansion_of(paths[i]@, ctx) is Ok);
            }
            assert(expansion_of(paths[n]@, ctx) is Ok);
        }
        if let Ok(ps) = expand_all(paths, ctx) {
            if let Ok(done) = expand_all(init, ctx) {
                if let Ok(q) = expansion_of(paths[n]@, ctx) {
                    assert(ps == done.push(q));
                    assert forall|i: int| 0 <= i < paths.len() implies expansion_of(
                        #[trigger] paths[i]@,
                        ctx,
                    ) == ok_text(ps[i]) by {
                        if i < n {
                            assert(init[i] == paths[i]);
                            assert(ps[i] == done[i]);
                        }
                    }
                }
            }
        }
        if let Err(m) = expand_all(init, ctx) {
            let i = choose|i: int|
                0 <= i < init.len() && expansion_of(#[trigger] init[i]@, ctx) == Err::<
                    Seq<char>,
                    (Seq<char>, Option<Seq<char>>),
                >(m);
            assert(paths[i] == init[i]);
        }
    }
}

/// Every configured path is expanded as the shell would: the configuration
/// expands successfully exactly when each of its listen path, log file and
/// upstream agent paths does, and then each holds its own expansion; when the
/// listen path fails, the whole expansion fails with its error.
pub proof fn law_config_paths_expand_one_by_one(c: Config, ctx: ExpandContext)
    ensures
        config_expansion(c, ctx) matches Ok((l, f, a)) ==> {
            &&& expansion_of(c.listen_path@, ctx) == ok_text(l)
            &&& match c.log_file {
                Some(p) => f is Some && expansion_of(p@, ctx) == ok_text(f->0),
                None => f is None,
            }
            &&& a.len() == c.agent_sock_paths@.len()
            &&& forall|i: int|
                0 <= i < a.len() ==> expansion_of(#[trigger] c.agent_sock_paths@[i]@, ctx) == ok_text(a[i])
        },
        expansion_of(c.listen_path@, ctx) matches Err(n) ==> config_expansion(c, ctx) == Err::<
            (Seq<char>, Option<Seq<char>>, Seq<Seq<char>>),
            (Seq<char>, Option<Seq<char>>),
        >(n),
        (expansion_of(c.listen_path@, ctx) is Ok && (c.log_file matches Some(p) ==> expansion_of(p@, ctx) is Ok)
            && forall|i: int|
            0 <= i < c.agent_sock_paths@.len() ==> (#[trigger] expansion_of(c.agent_sock_paths@[i]@, ctx)) is Ok)
            ==> config_expansion(c, ctx) is Ok,
{
    lemma_expand_all_pathwise(c.agent_sock_paths@, ctx);
}

/// A service command never succeeds without doing what it was asked: when
/// the service manager cannot work at user level, every command fails with
/// the unsupported-platform error; a restart is reported only right after the
/// service was started, an uninstall only after it was uninstalled, an
/// installation only after it was installed, a new configuration only after
/// it was written; and "nothing to do" only when no operation was requested.
pub proof fn law_service_success_only_after_operation(
    args: ServiceArgs,
    phase: ServicePhase,
    event: ServiceEvent,
)
    requires
        expected_event(phase, event),
    ensures
        phase is SettingLevel && event is LevelUnsupported ==> next_service_step(args, phase, event) == (
            ServicePhase::Finished,
            ServiceAction::Fail(ServiceError::Unsupported { install_service: args.install_service }),
        ),
        next_service_step(args, phase, event).1 == ServiceAction::Report(ServiceReport::Restarted)
            ==> phase is Starting && event is Completed,
        next_service_step(args, phase, event).1 == ServiceAction::Report(ServiceReport::Uninstalled)
            ==> phase is Uninstalling && event is Completed,
        next_service_step(args, phase, event).1 == ServiceAction::Report(ServiceReport::Installed)
            ==> phase is Installing && event is Completed,
        next_service_step(args, phase, event).1 == ServiceAction::Report(ServiceReport::ConfigWritten)
            ==> phase is WritingConfig && event is Completed,
        next_service_step(args, phase, event).1 == ServiceAction::Report(ServiceReport::Nothing)
            ==> phase is SettingLevel && event is Completed && !args.install_service
            && !args.restart_service && !args.uninstall_service,
        phase is Starting ==> next_service_step(args, phase, event).1 == ServiceAction::Report(
            ServiceReport::Restarted,
        ),
        phase is Uninstalling ==> next_service_step(args, phase, event).1 == ServiceAction::Report(
            ServiceReport::Uninstalled,
        ),
{
}

} // verus!
