//! Execution context: the transaction execution mode, per-context values and
//! the slots for consensus messages.
use vstd::prelude::*;

use crate::keyed::{bytes_order, has_key, lemma_lookup_at, Key, KvStore, Order};
use crate::modules::accounts::auth::AuthInfo;
use crate::modules::core_module::Error as CoreError;

verus! {

/// Transaction execution mode.
#[derive(Clone, Copy, Debug, PartialEq, Eq, Structural)]
pub enum Mode {
    ExecuteTx,
    CheckTx,
    SimulateTx,
    PreScheduleTx,
}

/// The name of a mode.
pub open spec fn mode_name(m: Mode) -> Seq<char> {
    match m {
        Mode::CheckTx => "check_tx"@,
        Mode::ExecuteTx => "execute_tx"@,
        Mode::SimulateTx => "simulate_tx"@,
        Mode::PreScheduleTx => "pre_schedule_tx"@,
    }
}

impl Mode {
    pub open spec fn is_check_only_spec(&self) -> bool {
        *self == Mode::CheckTx || *self == Mode::PreScheduleTx
    }

    /// The name of the mode.
    pub fn as_str(&self) -> (r: &'static str)
        ensures
            r@ == mode_name(*self),
    {
        match self {
            Mode::CheckTx => "check_tx",
            Mode::ExecuteTx => "execute_tx",
            Mode::SimulateTx => "simulate_tx",
            Mode::PreScheduleTx => "pre_schedule_tx",
        }
    }

    /// Whether the transaction is just being checked for validity.
    pub fn is_check_only(&self) -> (r: bool)
        ensures
            r == self.is_check_only_spec(),
    {
        *self == Mode::CheckTx || *self == Mode::PreScheduleTx
    }

    /// Whether the transaction is just being checked before being scheduled.
    pub fn is_pre_schedule(&self) -> (r: bool)
        ensures
            r == (*self == Mode::PreScheduleTx),
    {
        *self == Mode::PreScheduleTx
    }

    /// Whether the transaction is just being simulated.
    pub fn is_simulation(&self) -> (r: bool)
        ensures
            r == (*self == Mode::SimulateTx),
    {
        *self == Mode::SimulateTx
    }
}

/// Whether smart contracts are executed in a context of mode `m`: always when
/// executing, never when checking, and when simulating as the local
/// configuration says (the deprecated `allow_expensive_queries` option first,
/// then `estimate_gas_by_simulating_contracts`, by default no).
pub open spec fn should_execute_contracts_spec(
    m: Mode,
    allow_expensive_queries: Option<bool>,
    estimate_gas_by_simulating_contracts: Option<bool>,
) -> bool {
    match m {
        Mode::ExecuteTx => true,
        Mode::SimulateTx => match allow_expensive_queries {
            Some(b) => b,
            None => match estimate_gas_by_simulating_contracts {
                Some(b) => b,
                None => false,
            },
        },
        Mode::CheckTx | Mode::PreScheduleTx => false,
    }
}

/// Whether smart contracts should be executed, given the values of the two
/// local configuration options that decide it in simulations.
pub fn should_execute_contracts(
    m: Mode,
    allow_expensive_queries: Option<bool>,
    estimate_gas_by_simulating_contracts: Option<bool>,
) -> (r: bool)
    ensures
        r == should_execute_contracts_spec(
            m,
            allow_expensive_queries,
            estimate_gas_by_simulating_contracts,
        ),
{
    match m {
        Mode::ExecuteTx => true,
        Mode::SimulateTx => {
            if let Some(allow) = allow_expensive_queries {
                return allow;
            }
            match estimate_gas_by_simulating_contracts {
                Some(b) => b,
                None => false,
            }
        },
        Mode::CheckTx | Mode::PreScheduleTx => false,
    }
}

/// A node operator's local configuration value, as a context of mode `m`
/// sees it: never while executing transactions.
pub open spec fn local_config_spec<T>(m: Mode, value: Option<T>) -> Option<T> {
    if m == Mode::ExecuteTx {
        None
    } else {
        value
    }
}

/// The local configuration value `value` as a context of mode `m` sees it
/// (see `local_config_spec`).
pub fn local_config<T>(m: Mode, value: Option<T>) -> (r: Option<T>)
    ensures
        r == local_config_spec(m, value),
{
    if m == Mode::ExecuteTx {
        None
    } else {
        value
    }
}

/// What one entry of the allowed queries says of `method`: its own value,
/// else (for an expensive one) the value of `all_expensive`, else the value
/// of `all`.
pub open spec fn allowed_by_item(item: KvStore<String, bool>, method: Seq<char>, is_expensive: bool) -> Option<bool> {
    match item.get_spec(key_of(method)) {
        Some(b) => Some(b),
        None => match (if is_expensive {
            item.get_spec(key_of("all_expensive"@))
        } else {
            None
        }) {
            Some(b) => Some(b),
            None => item.get_spec(key_of("all"@)),
        },
    }
}

/// What the first entry of the allowed queries that says anything of
/// `method` says.
pub open spec fn allowed_by_config(config: Seq<KvStore<String, bool>>, method: Seq<char>, is_expensive: bool) -> Option<bool>
    decreases config.len(),
{
    if config.len() == 0 {
        None
    } else {
        match allowed_by_config(config.drop_last(), method, is_expensive) {
            Some(b) => Some(b),
            None => allowed_by_item(config.last(), method, is_expensive),
        }
    }
}

/// Whether a query is allowed: with the deprecated `allow_expensive_queries`
/// set, cheap queries always and expensive ones as it says; otherwise as the
/// first entry of `allowed_queries` that says anything of it, and by
/// default only cheap ones.
pub open spec fn is_allowed_query_spec(
    allowed_queries: Seq<KvStore<String, bool>>,
    allow_expensive_queries: Option<bool>,
    method: Seq<char>,
    is_expensive: bool,
) -> bool {
    match allow_expensive_queries {
        Some(b) => !is_expensive || b,
        None => match allowed_by_config(allowed_queries, method, is_expensive) {
            Some(b) => b,
            None => !is_expensive,
        },
    }
}

/// Whether `method` is an allowed query per the local configuration values
/// `allowed_queries` and `allow_expensive_queries`, as a context of mode `m`
/// sees them (see `is_allowed_query_spec`).
pub fn is_allowed_query(
    m: Mode,
    method: &str,
    is_expensive: bool,
    allowed_queries: Option<Vec<KvStore<String, bool>>>,
    allow_expensive_queries: Option<bool>,
) -> (r: bool)
    requires
        allowed_queries matches Some(c) ==> forall|i: int| 0 <= i < c@.len() ==> (#[trigger] c@[i]).wf(),
    ensures
        r == is_allowed_query_spec(
            match local_config_spec(m, allowed_queries) {
                Some(c) => c@,
                None => Seq::empty(),
            },
            local_config_spec(m, allow_expensive_queries),
            method@,
            is_expensive,
        ),
{
    let config: Vec<KvStore<String, bool>> = match local_config(m, allowed_queries) {
        Some(c) => c,
        None => Vec::new(),
    };
    if let Some(allow) = local_config(m, allow_expensive_queries) {
        return !is_expensive || allow;
    }
    let key = method.to_owned();
    let all_expensive = String::from_str("all_expensive");
    let all = String::from_str("all");
    let mut i: usize = 0;
    while i < config.len()
        invariant
            0 <= i <= config@.len(),
            forall|j: int| 0 <= j < config@.len() ==> (#[trigger] config@[j]).wf(),
            key@ == method@,
            config@ == match local_config_spec(m, allowed_queries) {
                Some(c) => c@,
                None => Seq::empty(),
            },
            local_config_spec(m, allow_expensive_queries) is None,
            all_expensive@ == "all_expensive"@,
            all@ == "all"@,
            allowed_by_config(config@.take(i as int), method@, is_expensive) is None,
        decreases config@.len() - i,
    {
        proof {
            assert(config@.take(i + 1).drop_last() =~= config@.take(i as int));
            assert(config@.take(i + 1).last() == config@[i as int]);
            assert(config@[i as int].wf());
        }
        let item = &config[i];
        let found = match item.get(&key) {
            Some(b) => Some(*b),
            None => {
                let e = if is_expensive {
                    match item.get(&all_expensive) {
                        Some(b) => Some(*b),
                        None => None,
                    }
                } else {
                    None
                };
                match e {
                    Some(b) => Some(b),
                    None => match item.get(&all) {
                        Some(b) => Some(*b),
                        None => None,
                    },
                }
            },
        };
        if let Some(b) = found {
            proof {
                lemma_allowed_kept(config@, i + 1, method@, is_expensive);
            }
            return b;
        }
        i = i + 1;
    }
    proof {
        assert(config@.take(config@.len() as int) =~= config@);
    }
    !is_expensive
}

/// What the first entries say stays what all of them say.
proof fn lemma_allowed_kept(config: Seq<KvStore<String, bool>>, i: int, method: Seq<char>, is_expensive: bool)
    requires
        0 <= i <= config.len(),
        allowed_by_config(config.take(i), method, is_expensive) is Some,
    ensures
        allowed_by_config(config, method, is_expensive) == allowed_by_config(config.take(i), method, is_expensive),
    decreases config.len() - i,
{
    if i < config.len() {
        assert(config.take(i + 1).drop_last() =~= config.take(i));
        lemma_allowed_kept(config, i + 1, method, is_expensive);
    } else {
        assert(config.take(i) =~= config);
    }
}

/// An entry that holds nothing for `method`, for all queries, nor (for an
/// expensive query) for all expensive ones.
pub open spec fn silent_entry(item: KvStore<String, bool>, method: Seq<char>, is_expensive: bool) -> bool {
    &&& item.get_spec(key_of(method)) is None
    &&& item.get_spec(key_of("all"@)) is None
    &&& is_expensive ==> item.get_spec(key_of("all_expensive"@)) is None
}

/// Entries that all hold nothing for a query say nothing of it.
proof fn lemma_silent_prefix(config: Seq<KvStore<String, bool>>, k: int, method: Seq<char>, is_expensive: bool)
    requires
        0 <= k <= config.len(),
        forall|j: int| 0 <= j < k ==> silent_entry(#[trigger] config[j], method, is_expensive),
    ensures
        allowed_by_config(config.take(k), method, is_expensive) is None,
    decreases k,
{
    if k > 0 {
        assert(config.take(k).drop_last() =~= config.take(k - 1));
        assert(config.take(k).last() == config[k - 1]);
        assert(silent_entry(config[k - 1], method, is_expensive));
        lemma_silent_prefix(config, k - 1, method, is_expensive);
    }
}

/// Without the deprecated option, the first entry of the allowed queries
/// that holds anything for a query decides it by its value for the method
/// itself where it has one, whatever it holds for all queries or all
/// expensive ones.
pub proof fn law_method_value_decides_query(
    config: Seq<KvStore<String, bool>>,
    method: Seq<char>,
    is_expensive: bool,
    i: int,
    b: bool,
)
    requires
        0 <= i < config.len(),
        forall|j: int| 0 <= j < i ==> silent_entry(#[trigger] config[j], method, is_expensive),
        config[i].get_spec(key_of(method)) == Some(b),
    ensures
        is_allowed_query_spec(config, None, method, is_expensive) == b,
{
    lemma_silent_prefix(config, i, method, is_expensive);
    assert(config.take(i + 1).drop_last() =~= config.take(i));
    assert(config.take(i + 1).last() == config[i]);
    lemma_allowed_kept(config, i + 1, method, is_expensive);
}

/// Without the deprecated option, where the first entry that holds
/// anything for a query holds nothing for the method itself, an expensive
/// query is decided by its value for all expensive queries where it has
/// one, and otherwise (and always for a cheap query) by its value for all
/// queries.
pub proof fn law_fallback_values_decide_query(
    config: Seq<KvStore<String, bool>>,
    method: Seq<char>,
    is_expensive: bool,
    i: int,
)
    requires
        0 <= i < config.len(),
        forall|j: int| 0 <= j < i ==> silent_entry(#[trigger] config[j], method, is_expensive),
        config[i].get_spec(key_of(method)) is None,
    ensures
        is_expensive ==> (config[i].get_spec(key_of("all_expensive"@)) matches Some(b)
            ==> is_allowed_query_spec(config, None, method, is_expensive) == b),
        (!is_expensive || config[i].get_spec(key_of("all_expensive"@)) is None) ==> (config[i].get_spec(
            key_of("all"@),
        ) matches Some(b) ==> is_allowed_query_spec(config, None, method, is_expensive) == b),
{
    lemma_silent_prefix(config, i, method, is_expensive);
    assert(config.take(i + 1).drop_last() =~= config.take(i));
    assert(config.take(i + 1).last() == config[i]);
    if allowed_by_config(config.take(i + 1), method, is_expensive) is Some {
        lemma_allowed_kept(config, i + 1, method, is_expensive);
    }
}

/// Keys of event tags are ordered by their bytes.
impl Key for Vec<u8> {
    open spec fn key_bytes(&self) -> Seq<u8> {
        self@
    }

    fn key_order(&self, other: &Self) -> (r: Order) {
        bytes_order(self.as_slice(), other.as_slice())
    }
}

/// An event tag: the values are emitted under their key.
#[derive(Debug)]
pub struct EventTag {
    pub key: Vec<u8>,
    pub value: Vec<u8>,
}

/// The views of a sequence of byte vectors.
pub open spec fn byte_seqs(v: Seq<Vec<u8>>) -> Seq<Seq<u8>> {
    v.map_values(|x: Vec<u8>| x@)
}

/// Event tags: the values emitted under each key, in the order they came.
#[derive(Debug)]
pub struct EventTags {
    pub tags: KvStore<Vec<u8>, Vec<Vec<u8>>>,
}

impl EventTags {
    /// The values emitted under key `k`.
    pub open spec fn values_of(&self, k: Seq<u8>) -> Seq<Seq<u8>> {
        match self.tags.get_spec(k) {
            Some(v) => byte_seqs(v@),
            None => Seq::empty(),
        }
    }

    /// No tags.
    pub fn new() -> (r: Self)
        ensures
            r.tags.wf(),
            forall|k: Seq<u8>| #[trigger] r.values_of(k) == Seq::<Seq<u8>>::empty(),
    {
        EventTags { tags: KvStore::new() }
    }

    /// Adds `value` under `key`.
    pub fn push(&mut self, key: Vec<u8>, value: Vec<u8>)
        requires
            old(self).tags.wf(),
        ensures
            final(self).tags.wf(),
            forall|k: Seq<u8>| #[trigger]
                final(self).values_of(k) == if k == key@ {
                    old(self).values_of(k).push(value@)
                } else {
                    old(self).values_of(k)
                },
    {
        match self.tags.find(&key) {
            Ok(i) => {
                proof {
                    lemma_lookup_at(self.tags.entries@, i as int);
                }
                let ghost before = self.tags.entries@[i as int].1@;
                let vals = self.tags.value_at_mut(i);
                vals.push(value);
                proof {
                    assert(byte_seqs(vals@) =~= byte_seqs(before).push(value@));
                }
            },
            Err(_) => {
                let mut v: Vec<Vec<u8>> = Vec::new();
                v.push(value);
                proof {
                    assert(byte_seqs(v@) =~= Seq::<Seq<u8>>::empty().push(value@));
                }
                self.tags.insert(key, v);
            },
        }
    }

    /// Adds each value of `other` under its key, after those there are.
    pub fn extend(&mut self, other: EventTags)
        requires
            old(self).tags.wf(),
            other.tags.wf(),
        ensures
            final(self).tags.wf(),
            forall|k: Seq<u8>| #[trigger]
                final(self).values_of(k) == old(self).values_of(k) + other.values_of(k),
    {
        let EventTags { tags } = other;
        let KvStore { entries } = tags;
        let ghost e = entries@;
        let n = entries.len();
        let mut rest = entries;
        let mut i: usize = 0;
        proof {
            assert forall|k: Seq<u8>| #[trigger] crate::keyed::lookup(e.take(0), k) is None by {
                assert(e.take(0).len() == 0);
            }
        }
        while rest.len() > 0
            invariant
                0 <= i <= e.len(),
                e.len() == n,
                rest@ == e.skip(i as int),
                crate::keyed::sorted_entries(e),
                self.tags.wf(),
                forall|k: Seq<u8>| #[trigger]
                    self.values_of(k) == old(self).values_of(k) + match crate::keyed::lookup(e.take(i as int), k) {
                        Some(v) => byte_seqs(v@),
                        None => Seq::empty(),
                    },
            decreases rest@.len(),
        {
            let (key, vals) = rest.remove(0);
            proof {
                assert(e[i as int] == (key, vals));
                assert forall|k: Seq<u8>| #[trigger] crate::keyed::lookup(e.take(i + 1), k) == if k == e[i as int].0.key_bytes() {
                    Some(e[i as int].1)
                } else {
                    crate::keyed::lookup(e.take(i as int), k)
                } by {
                    crate::keyed::lemma_lookup_take_next(e, i as int, k);
                }
                assert(crate::keyed::lookup(e.take(i as int), key@) is None) by {
                    crate::keyed::lemma_sorted_take(e, i as int);
                    let t = e.take(i as int);
                    if has_key(t, key@) {
                        let j = crate::keyed::key_index(t, key@);
                        assert(t[j] == e[j]);
                        assert(crate::keyed::bytes_lt(e[j].0.key_bytes(), e[i as int].0.key_bytes()));
                        crate::keyed::lemma_bytes_lt_irreflexive(key@);
                    }
                }
            }
            let ghost before = *self;
            let mut j: usize = 0;
            while j < vals.len()
                invariant
                    0 <= j <= vals@.len(),
                    self.tags.wf(),
                    forall|k: Seq<u8>| #[trigger]
                        self.values_of(k) == if k == key@ {
                            before.values_of(k) + byte_seqs(vals@).take(j as int)
                        } else {
                            before.values_of(k)
                        },
                decreases vals@.len() - j,
            {
                let v = vals[j].clone();
                proof {
                    assert(v@ == vals@[j as int]@);
                    assert(byte_seqs(vals@).take(j + 1) =~= byte_seqs(vals@).take(j as int).push(v@));
                }
                self.push(key.clone(), v);
                j = j + 1;
            }
            proof {
                assert(byte_seqs(vals@).take(vals@.len() as int) =~= byte_seqs(vals@));
                assert(rest@ =~= e.skip(i + 1));
            }
            i = i + 1;
        }
        proof {
            assert(e.take(e.len() as int) =~= e);
        }
    }
}

/// How a transaction's call is encoded.
#[derive(Clone, Copy, Debug, PartialEq, Eq, Structural)]
pub enum CallFormat {
    Plain,
    EncryptedX25519DeoxysII,
}

/// What a transaction context is made from: the authentication, the call
/// and how it is encoded, and whether it only reads.
#[derive(Debug)]
pub struct Transaction<C> {
    pub auth_info: AuthInfo,
    pub call: C,
    pub call_format: CallFormat,
    pub read_only: bool,
}

/// The number of free message slots: the limit less the messages emitted,
/// and none where they exceed it.
pub open spec fn remaining_slots(max_messages: u32, emitted: nat) -> u32 {
    if emitted <= max_messages {
        (max_messages - emitted) as u32
    } else {
        0
    }
}

/// Emitting `k` messages into free slots takes exactly `k` of them.
pub proof fn law_emitting_takes_slots(max_messages: u32, emitted: nat, k: nat)
    requires
        emitted + k <= max_messages,
    ensures
        remaining_slots(max_messages, emitted + k) + k == remaining_slots(max_messages, emitted),
{
}

/// A child context that is not a simulation can emit no more messages than
/// its parent has free slots.
pub proof fn law_child_within_parent_slots<M, V>(
    c: RuntimeBatchContext<M, V>,
    mode: Mode,
    internal: bool,
    max_messages: u32,
    remaining: u32,
    tx: Seq<u8>,
)
    requires
        child_of(c, mode, internal, max_messages, remaining, tx),
        mode != Mode::SimulateTx,
    ensures
        remaining_slots(c.max_messages, c.messages@.len()) == remaining,
{
}

/// Dispatch context for the whole batch: its mode, the event tags of the
/// block, the consensus messages emitted and how many may be, the
/// per-context values and the current transaction's bytes.
#[derive(Debug)]
pub struct RuntimeBatchContext<M, V> {
    pub mode: Mode,
    /// Whether this context is part of an existing transaction.
    pub internal: bool,
    pub block_etags: EventTags,
    pub max_messages: u32,
    pub messages: Vec<M>,
    pub values: KvStore<String, V>,
    pub tx: Vec<u8>,
}

/// `c` is a fresh child of a context in mode `mode` with `internal`, message
/// limit `max_messages`, `remaining` free slots and transaction bytes `tx`:
/// a simulation keeps the limit, other modes get the free slots.
pub open spec fn child_of<M, V>(
    c: RuntimeBatchContext<M, V>,
    mode: Mode,
    internal: bool,
    max_messages: u32,
    remaining: u32,
    tx: Seq<u8>,
) -> bool {
    &&& c.mode == mode
    &&& c.internal == internal
    &&& c.wf()
    &&& forall|k: Seq<u8>| #[trigger] c.block_etags.values_of(k) == Seq::<Seq<u8>>::empty()
    &&& c.max_messages == if mode == Mode::SimulateTx {
        max_messages
    } else {
        remaining
    }
    &&& c.messages@.len() == 0
    &&& c.values.entries@.len() == 0
    &&& c.tx@ == tx
}

impl<M, V> RuntimeBatchContext<M, V> {
    pub open spec fn wf(&self) -> bool {
        &&& self.block_etags.tags.wf()
        &&& self.values.wf()
        &&& self.messages@.len() <= u32::MAX
    }

    /// A new context in `mode` that may emit `max_messages` messages.
    pub fn new(mode: Mode, max_messages: u32) -> (r: Self)
        ensures
            r.wf(),
            r.mode == mode,
            !r.internal,
            r.max_messages == max_messages,
            r.messages@.len() == 0,
            r.values.entries@.len() == 0,
            r.tx@.len() == 0,
            forall|k: Seq<u8>| #[trigger] r.block_etags.values_of(k) == Seq::<Seq<u8>>::empty(),
    {
        RuntimeBatchContext {
            mode,
            internal: false,
            block_etags: EventTags::new(),
            max_messages,
            messages: Vec::new(),
            values: KvStore::new(),
            tx: Vec::new(),
        }
    }

    /// The context of a round of the runtime: it checks transactions where
    /// the round only checks, and executes them otherwise; otherwise as
    /// `new`.
    pub fn from_runtime(check_only: bool, max_messages: u32) -> (r: Self)
        ensures
            r.wf(),
            r.mode == (if check_only {
                Mode::CheckTx
            } else {
                Mode::ExecuteTx
            }),
            !r.internal,
            r.max_messages == max_messages,
            r.messages@.len() == 0,
            r.values.entries@.len() == 0,
            r.tx@.len() == 0,
            forall|k: Seq<u8>| #[trigger] r.block_etags.values_of(k) == Seq::<Seq<u8>>::empty(),
    {
        let mode = if check_only {
            Mode::CheckTx
        } else {
            Mode::ExecuteTx
        };
        Self::new(mode, max_messages)
    }

    /// The context's mode.
    pub fn mode(&self) -> (r: Mode)
        ensures
            r == self.mode,
    {
        self.mode
    }

    /// Emits an event tag.
    pub fn emit_etag(&mut self, etag: EventTag)
        requires
            old(self).wf(),
        ensures
            final(self).wf(),
            forall|k: Seq<u8>| #[trigger]
                final(self).block_etags.values_of(k) == if k == etag.key@ {
                    old(self).block_etags.values_of(k).push(etag.value@)
                } else {
                    old(self).block_etags.values_of(k)
                },
            final(self).messages == old(self).messages,
            final(self).max_messages == old(self).max_messages,
            final(self).values == old(self).values,
            final(self).mode == old(self).mode,
    {
        let EventTag { key, value } = etag;
        self.block_etags.push(key, value);
    }

    /// Emits event tags, each after those under its key.
    pub fn emit_etags(&mut self, etags: EventTags)
        requires
            old(self).wf(),
            etags.tags.wf(),
        ensures
            final(self).wf(),
            forall|k: Seq<u8>| #[trigger]
                final(self).block_etags.values_of(k) == old(self).block_etags.values_of(k)
                    + etags.values_of(k),
            final(self).messages == old(self).messages,
            final(self).max_messages == old(self).max_messages,
            final(self).values == old(self).values,
            final(self).mode == old(self).mode,
    {
        self.block_etags.extend(etags);
    }

    /// Ends the context, giving its event tags and messages.
    pub fn commit(self) -> (r: (EventTags, Vec<M>))
        ensures
            r.0 == self.block_etags,
            r.1 == self.messages,
    {
        (self.block_etags, self.messages)
    }

    /// Ends the context, dropping what it did: no event tags remain.
    pub fn rollback(self) -> (r: EventTags)
        ensures
            r.tags.wf(),
            forall|k: Seq<u8>| #[trigger] r.values_of(k) == Seq::<Seq<u8>>::empty(),
    {
        EventTags::new()
    }

    /// The per-context value under `key`.
    pub fn value(&mut self, key: &str) -> (r: ContextValue<'_, V>)
        ensures
            *r.values == old(self).values,
            final(self).values == *final(r.values),
            r.key@ == key@,
            final(self).mode == old(self).mode,
            final(self).messages == old(self).messages,
            final(self).max_messages == old(self).max_messages,
            final(self).block_etags == old(self).block_etags,
            final(self).tx == old(self).tx,
            final(self).internal == old(self).internal,
    {
        ContextValue::new(&mut self.values, key)
    }

    /// The number of messages that may still be emitted.
    pub fn remaining_messages(&self) -> (r: u32)
        requires
            self.wf(),
        ensures
            r == remaining_slots(self.max_messages, self.messages@.len()),
    {
        self.max_messages.saturating_sub(self.messages.len() as u32)
    }

    /// Lowers the number of messages that may be emitted; raising it fails
    /// with `OutOfMessageSlots`, changing nothing.
    pub fn limit_max_messages(&mut self, max_messages: u32) -> (r: Result<(), CoreError>)
        ensures
            max_messages > old(self).max_messages ==> r == Err::<(), CoreError>(
                CoreError::OutOfMessageSlots,
            ) && *final(self) == *old(self),
            max_messages <= old(self).max_messages ==> r is Ok && *final(self) == (
            RuntimeBatchContext { max_messages, ..*old(self) }),
    {
        if max_messages > self.max_messages {
            return Err(CoreError::OutOfMessageSlots);
        }
        self.max_messages = max_messages;
        Ok(())
    }

    /// Emits messages where they fit in the free slots; otherwise fails with
    /// `OutOfMessageSlots`, emitting none.
    pub fn emit_messages(&mut self, msgs: Vec<M>) -> (r: Result<(), CoreError>)
        requires
            old(self).wf(),
        ensures
            final(self).wf(),
            old(self).messages@.len() + msgs@.len() > old(self).max_messages ==> r == Err::<
                (),
                CoreError,
            >(CoreError::OutOfMessageSlots) && *final(self) == *old(self),
            old(self).messages@.len() + msgs@.len() <= old(self).max_messages ==> r is Ok
                && final(self).messages@ == old(self).messages@ + msgs@,
            final(self).max_messages == old(self).max_messages,
            final(self).mode == old(self).mode,
            final(self).values == old(self).values,
            final(self).block_etags == old(self).block_etags,
    {
        let total = self.messages.len().checked_add(msgs.len());
        match total {
            Some(t) => {
                if t > self.max_messages as usize {
                    return Err(CoreError::OutOfMessageSlots);
                }
            },
            None => {
                return Err(CoreError::OutOfMessageSlots);
            },
        }
        let ghost before = self.messages@;
        let mut msgs = msgs;
        self.messages.append(&mut msgs);
        Ok(())
    }

    /// A fresh child context in `mode` (see `child_of`).
    pub fn child(&self, mode: Mode) -> (r: RuntimeBatchContext<M, V>)
        requires
            self.wf(),
        ensures
            child_of(
                r,
                mode,
                self.internal,
                self.max_messages,
                remaining_slots(self.max_messages, self.messages@.len()),
                self.tx@,
            ),
    {
        let remaining = self.remaining_messages();
        RuntimeBatchContext {
            mode,
            internal: self.internal,
            block_etags: EventTags::new(),
            max_messages: match mode {
                Mode::SimulateTx => self.max_messages,
                _ => remaining,
            },
            messages: Vec::new(),
            values: KvStore::new(),
            tx: self.tx.clone(),
        }
    }

    /// Runs `f` on a fresh child context in `mode` (see `child_of`).
    pub fn with_child<F, Rs>(&mut self, mode: Mode, f: F) -> (r: Rs) where
        F: FnOnce(RuntimeBatchContext<M, V>) -> Rs,

        requires
            old(self).wf(),
            forall|c: RuntimeBatchContext<M, V>|
                child_of(
                    c,
                    mode,
                    old(self).internal,
                    old(self).max_messages,
                    remaining_slots(old(self).max_messages, old(self).messages@.len()),
                    old(self).tx@,
                ) ==> #[trigger] f.requires((c,)),
        ensures
            *final(self) == *old(self),
            exists|c: RuntimeBatchContext<M, V>|
                child_of(
                    c,
                    mode,
                    old(self).internal,
                    old(self).max_messages,
                    remaining_slots(old(self).max_messages, old(self).messages@.len()),
                    old(self).tx@,
                ) && #[trigger] f.ensures((c,), r),
    {
        let child = self.child(mode);
        f(child)
    }

    /// Sets the bytes of the current transaction.
    pub fn set_tx(&mut self, tx: &[u8])
        ensures
            final(self).tx@ == tx@,
            final(self).mode == old(self).mode,
            final(self).messages == old(self).messages,
            final(self).max_messages == old(self).max_messages,
            final(self).values == old(self).values,
            final(self).block_etags == old(self).block_etags,
            final(self).internal == old(self).internal,
    {
        let mut v: Vec<u8> = Vec::new();
        let mut i: usize = 0;
        while i < tx.len()
            invariant
                0 <= i <= tx@.len(),
                v@ =~= tx@.subrange(0, i as int),
            decreases tx@.len() - i,
        {
            v.push(tx[i]);
            i = i + 1;
        }
        assert(v@ =~= tx@);
        self.tx = v;
    }

    /// The bytes of the current transaction.
    pub fn get_tx(&self) -> (r: &[u8])
        ensures
            r@ == self.tx@,
    {
        self.tx.as_slice()
    }
}

/// Per-transaction dispatch context: the transaction's index, size,
/// authentication, call format and read-only flag, its event tags (and
/// those kept even when it fails), its messages and how many it may emit,
/// the batch's per-context values and its own, and the transaction bytes.
#[derive(Debug)]
pub struct RuntimeTxContext<'a, M, V> {
    pub mode: Mode,
    pub internal: bool,
    pub tx_index: usize,
    pub tx_size: u32,
    pub tx_auth_info: AuthInfo,
    pub tx_call_format: CallFormat,
    pub read_only: bool,
    pub etags: EventTags,
    pub etags_unconditional: EventTags,
    pub max_messages: u32,
    pub messages: Vec<M>,
    pub values: &'a mut KvStore<String, V>,
    pub tx_values: KvStore<String, V>,
    pub tx: Vec<u8>,
}

/// `c` is a fresh context of a transaction `tx` at `tx_index`, of `tx_size`
/// bytes, in batch context `p`: it may emit as many messages as the batch
/// has free slots and shares the batch's values.
pub open spec fn tx_of<'a, M, V>(
    c: RuntimeTxContext<'a, M, V>,
    p: RuntimeBatchContext<M, V>,
    tx_index: usize,
    tx_size: u32,
    auth_info: AuthInfo,
    call_format: CallFormat,
    read_only: bool,
) -> bool {
    &&& c.mode == p.mode
    &&& c.internal == p.internal
    &&& c.tx_index == tx_index
    &&& c.tx_size == tx_size
    &&& c.tx_auth_info == auth_info
    &&& c.tx_call_format == call_format
    &&& c.read_only == read_only
    &&& c.wf()
    &&& forall|k: Seq<u8>| #[trigger] c.etags.values_of(k) == Seq::<Seq<u8>>::empty()
    &&& forall|k: Seq<u8>| #[trigger] c.etags_unconditional.values_of(k) == Seq::<Seq<u8>>::empty()
    &&& c.max_messages == remaining_slots(p.max_messages, p.messages@.len())
    &&& c.messages@.len() == 0
    &&& *c.values == p.values
    &&& c.tx_values.entries@.len() == 0
    &&& c.tx@ == p.tx@
}

impl<M, V> RuntimeBatchContext<M, V> {
    /// Runs `f` on a fresh context of transaction `tx` (see `tx_of`), with
    /// the transaction's call; what `f` does to the shared values stays.
    pub fn with_tx<'b, C, F, Rs>(&'b mut self, tx_index: usize, tx_size: u32, tx: Transaction<C>, f: F) -> (r: Rs) where
        F: FnOnce(RuntimeTxContext<'b, M, V>, C) -> Rs,

        requires
            old(self).wf(),
            forall|c: RuntimeTxContext<'b, M, V>|
                tx_of(c, *old(self), tx_index, tx_size, tx.auth_info, tx.call_format, tx.read_only)
                    ==> #[trigger] f.requires((c, tx.call)),
        ensures
            exists|c: RuntimeTxContext<'b, M, V>|
                tx_of(c, *old(self), tx_index, tx_size, tx.auth_info, tx.call_format, tx.read_only)
                    && #[trigger] f.ensures((c, tx.call), r) && final(self).values == *final(c.values),
            final(self).mode == old(self).mode,
            final(self).messages == old(self).messages,
            final(self).max_messages == old(self).max_messages,
            final(self).block_etags == old(self).block_etags,
            final(self).tx == old(self).tx,
            final(self).internal == old(self).internal,
    {
        let remaining = self.remaining_messages();
        let Transaction { auth_info, call, call_format, read_only } = tx;
        let tx_ctx = RuntimeTxContext {
            mode: self.mode,
            internal: self.internal,
            tx_index,
            tx_size,
            tx_auth_info: auth_info,
            tx_call_format: call_format,
            read_only,
            etags: EventTags::new(),
            etags_unconditional: EventTags::new(),
            max_messages: remaining,
            messages: Vec::new(),
            values: &mut self.values,
            tx_values: KvStore::new(),
            tx: self.tx.clone(),
        };
        f(tx_ctx, call)
    }
}

impl<'a, M, V> RuntimeTxContext<'a, M, V> {
    pub open spec fn wf(&self) -> bool {
        &&& self.etags.tags.wf()
        &&& self.etags_unconditional.tags.wf()
        &&& self.values.wf()
        &&& self.tx_values.wf()
        &&& self.messages@.len() <= u32::MAX
    }

    /// The context's mode.
    pub fn mode(&self) -> (r: Mode)
        ensures
            r == self.mode,
    {
        self.mode
    }

    /// The index of the transaction in the batch.
    pub fn tx_index(&self) -> (r: usize)
        ensures
            r == self.tx_index,
    {
        self.tx_index
    }

    /// The size of the transaction in bytes.
    pub fn tx_size(&self) -> (r: u32)
        ensures
            r == self.tx_size,
    {
        self.tx_size
    }

    /// How the transaction's call is encoded.
    pub fn tx_call_format(&self) -> (r: CallFormat)
        ensures
            r == self.tx_call_format,
    {
        self.tx_call_format
    }

    /// The transaction's authentication.
    pub fn tx_auth_info(&self) -> (r: &AuthInfo)
        ensures
            *r == self.tx_auth_info,
    {
        &self.tx_auth_info
    }

    /// Whether the transaction only reads.
    pub fn is_read_only(&self) -> (r: bool)
        ensures
            r == self.read_only,
    {
        self.read_only
    }

    /// Whether the context is part of an existing transaction.
    pub fn is_internal(&self) -> (r: bool)
        ensures
            r == self.internal,
    {
        self.internal
    }

    /// The context, marked as part of an existing transaction.
    pub fn internal(self) -> (r: Self)
        ensures
            r == (RuntimeTxContext { internal: true, ..self }),
    {
        let mut c = self;
        c.internal = true;
        c
    }

    /// The per-context value under `key`, shared with the batch.
    pub fn value(&mut self, key: &str) -> (r: ContextValue<'_, V>)
        ensures
            *r.values == *old(self).values,
            *final(self).values == *final(r.values),
            r.key@ == key@,
            final(self).tx_values == old(self).tx_values,
            final(self).messages == old(self).messages,
            final(self).max_messages == old(self).max_messages,
    {
        ContextValue::new(self.values, key)
    }

    /// The per-transaction value under `key`.
    pub fn tx_value(&mut self, key: &str) -> (r: ContextValue<'_, V>)
        ensures
            *r.values == old(self).tx_values,
            final(self).tx_values == *final(r.values),
            r.key@ == key@,
            *final(self).values == *old(self).values,
            final(self).messages == old(self).messages,
            final(self).max_messages == old(self).max_messages,
    {
        ContextValue::new(&mut self.tx_values, key)
    }

    /// The number of messages that may still be emitted.
    pub fn remaining_messages(&self) -> (r: u32)
        requires
            self.wf(),
        ensures
            r == remaining_slots(self.max_messages, self.messages@.len()),
    {
        self.max_messages.saturating_sub(self.messages.len() as u32)
    }

    /// Lowers the number of messages that may be emitted; raising it fails
    /// with `OutOfMessageSlots`, changing nothing.
    pub fn limit_max_messages(&mut self, max_messages: u32) -> (r: Result<(), CoreError>)
        ensures
            max_messages > old(self).max_messages ==> r == Err::<(), CoreError>(
                CoreError::OutOfMessageSlots,
            ) && final(self).max_messages == old(self).max_messages,
            max_messages <= old(self).max_messages ==> r is Ok && final(self).max_messages
                == max_messages,
            final(self).messages == old(self).messages,
            final(self).mode == old(self).mode,
            *final(self).values == *old(self).values,
            final(self).tx_values == old(self).tx_values,
            final(self).etags == old(self).etags,
            final(self).etags_unconditional == old(self).etags_unconditional,
            final(self).internal == old(self).internal,
            final(self).tx == old(self).tx,
    {
        if max_messages > self.max_messages {
            return Err(CoreError::OutOfMessageSlots);
        }
        self.max_messages = max_messages;
        Ok(())
    }

    /// Emits a message where a slot is free; otherwise fails with
    /// `OutOfMessageSlots`, emitting nothing.
    pub fn emit_message(&mut self, msg: M) -> (r: Result<(), CoreError>)
        requires
            old(self).wf(),
        ensures
            final(self).wf(),
            old(self).messages@.len() >= old(self).max_messages ==> r == Err::<(), CoreError>(
                CoreError::OutOfMessageSlots,
            ) && final(self).messages == old(self).messages,
            old(self).messages@.len() < old(self).max_messages ==> r is Ok && final(self).messages@
                == old(self).messages@.push(msg),
            final(self).max_messages == old(self).max_messages,
            final(self).mode == old(self).mode,
            *final(self).values == *old(self).values,
            final(self).tx_values == old(self).tx_values,
            final(self).etags == old(self).etags,
            final(self).etags_unconditional == old(self).etags_unconditional,
    {
        if self.messages.len() >= self.max_messages as usize {
            return Err(CoreError::OutOfMessageSlots);
        }
        self.messages.push(msg);
        Ok(())
    }

    /// Emits an event tag, dropped when the transaction fails.
    pub fn emit_etag(&mut self, etag: EventTag)
        requires
            old(self).wf(),
        ensures
            final(self).wf(),
            forall|k: Seq<u8>| #[trigger]
                final(self).etags.values_of(k) == if k == etag.key@ {
                    old(self).etags.values_of(k).push(etag.value@)
                } else {
                    old(self).etags.values_of(k)
                },
            final(self).etags_unconditional == old(self).etags_unconditional,
            final(self).messages == old(self).messages,
            *final(self).values == *old(self).values,
    {
        let EventTag { key, value } = etag;
        self.etags.push(key, value);
    }

    /// Emits event tags, dropped when the transaction fails.
    pub fn emit_etags(&mut self, etags: EventTags)
        requires
            old(self).wf(),
            etags.tags.wf(),
        ensures
            final(self).wf(),
            forall|k: Seq<u8>| #[trigger]
                final(self).etags.values_of(k) == old(self).etags.values_of(k) + etags.values_of(k),
            final(self).etags_unconditional == old(self).etags_unconditional,
            final(self).messages == old(self).messages,
            *final(self).values == *old(self).values,
    {
        self.etags.extend(etags);
    }

    /// Emits an event tag that is kept even when the transaction fails.
    pub fn emit_unconditional_etag(&mut self, etag: EventTag)
        requires
            old(self).wf(),
        ensures
            final(self).wf(),
            forall|k: Seq<u8>| #[trigger]
                final(self).etags_unconditional.values_of(k) == if k == etag.key@ {
                    old(self).etags_unconditional.values_of(k).push(etag.value@)
                } else {
                    old(self).etags_unconditional.values_of(k)
                },
            final(self).etags == old(self).etags,
            final(self).messages == old(self).messages,
            *final(self).values == *old(self).values,
    {
        let EventTag { key, value } = etag;
        self.etags_unconditional.push(key, value);
    }

    /// Ends the transaction as done: its event tags, with those kept even on
    /// failure after them, and its messages.
    pub fn commit(self) -> (r: (EventTags, Vec<M>))
        requires
            self.wf(),
        ensures
            r.0.tags.wf(),
            forall|k: Seq<u8>| #[trigger]
                r.0.values_of(k) == self.etags.values_of(k) + self.etags_unconditional.values_of(k),
            r.1 == self.messages,
    {
        let RuntimeTxContext { etags, etags_unconditional, messages, .. } = self;
        let mut etags = etags;
        etags.extend(etags_unconditional);
        (etags, messages)
    }

    /// Ends the transaction as failed: only the event tags kept on failure
    /// remain.
    pub fn rollback(self) -> (r: EventTags)
        ensures
            r == self.etags_unconditional,
    {
        self.etags_unconditional
    }

    /// A fresh child context in `mode` (see `child_of`).
    pub fn child(&self, mode: Mode) -> (r: RuntimeBatchContext<M, V>)
        requires
            self.wf(),
        ensures
            child_of(
                r,
                mode,
                self.internal,
                self.max_messages,
                remaining_slots(self.max_messages, self.messages@.len()),
                self.tx@,
            ),
    {
        let remaining = self.remaining_messages();
        RuntimeBatchContext {
            mode,
            internal: self.internal,
            block_etags: EventTags::new(),
            max_messages: match mode {
                Mode::SimulateTx => self.max_messages,
                _ => remaining,
            },
            messages: Vec::new(),
            values: KvStore::new(),
            tx: self.tx.clone(),
        }
    }

    /// Runs `f` on a fresh child context in `mode` (see `child_of`).
    pub fn with_child<F, Rs>(&mut self, mode: Mode, f: F) -> (r: Rs) where
        F: FnOnce(RuntimeBatchContext<M, V>) -> Rs,

        requires
            old(self).wf(),
            forall|c: RuntimeBatchContext<M, V>|
                child_of(
                    c,
                    mode,
                    old(self).internal,
                    old(self).max_messages,
                    remaining_slots(old(self).max_messages, old(self).messages@.len()),
                    old(self).tx@,
                ) ==> #[trigger] f.requires((c,)),
        ensures
            *final(self) == *old(self),
            exists|c: RuntimeBatchContext<M, V>|
                child_of(
                    c,
                    mode,
                    old(self).internal,
                    old(self).max_messages,
                    remaining_slots(old(self).max_messages, old(self).messages@.len()),
                    old(self).tx@,
                ) && #[trigger] f.ensures((c,), r),
    {
        let child = self.child(mode);
        f(child)
    }

    /// The bytes of the transaction.
    pub fn get_tx(&self) -> (r: &[u8])
        ensures
            r@ == self.tx@,
    {
        self.tx.as_slice()
    }

    /// Setting the transaction bytes of a transaction context does nothing.
    pub fn set_tx(&mut self, tx: &[u8])
        ensures
            *final(self) == *old(self),
    {
    }
}

/// Context keys are stored under their UTF-8 bytes.
impl Key for String {
    open spec fn key_bytes(&self) -> Seq<u8> {
        vstd::utf8::encode_utf8(self@)
    }

    fn key_order(&self, other: &Self) -> (r: Order) {
        bytes_order(self.as_str().as_bytes(), other.as_str().as_bytes())
    }
}

/// The bytes under which a context value with key `k` is stored.
pub open spec fn key_of(k: Seq<char>) -> Seq<u8> {
    vstd::utf8::encode_utf8(k)
}

/// Values that have a default.
pub trait DefaultValue: Sized {
    /// Whether the value is the default.
    spec fn is_default_value(&self) -> bool;

    /// The default value.
    fn default_value() -> (r: Self)
        ensures
            r.is_default_value(),
    ;
}

impl DefaultValue for u64 {
    open spec fn is_default_value(&self) -> bool {
        *self == 0
    }

    fn default_value() -> (r: Self) {
        0
    }
}

/// Per-context values by key.
pub type ContextValues<V> = KvStore<String, V>;

/// A per-context value: the entry under one key of a context's values.
pub struct ContextValue<'a, V> {
    pub values: &'a mut KvStore<String, V>,
    pub key: String,
}

impl<'a, V> ContextValue<'a, V> {
    /// The entry under `key` of `values`.
    pub fn new(values: &'a mut KvStore<String, V>, key: &str) -> (r: Self)
        ensures
            *r.values == *old(values),
            *final(values) == *final(r.values),
            r.key@ == key@,
    {
        ContextValue { values, key: key.to_owned() }
    }

    /// Gets a reference to the value, if there is one.
    pub fn get(self) -> (r: Option<&'a V>)
        requires
            old(self.values).wf(),
        ensures
            match r {
                Some(v) => old(self.values).get_spec(key_of(self.key@)) == Some(*v),
                None => old(self.values).get_spec(key_of(self.key@)) is None,
            },
            *final(self.values) == *old(self.values),
    {
        let values: &'a KvStore<String, V> = self.values;
        values.get(&self.key)
    }

    /// Gets a mutable reference to the value, if there is one.
    pub fn get_mut(&mut self) -> (r: Option<&mut V>)
        requires
            old(self).values.wf(),
        ensures
            final(self).key == old(self).key,
            *final(final(self).values) == *final(old(self).values),
            match r {
                Some(v) => {
                    &&& old(self).values.get_spec(key_of(old(self).key@)) == Some(*v)
                    &&& final(self).values.wf()
                    &&& forall|kb: Seq<u8>| #[trigger]
                        final(self).values.get_spec(kb) == if kb == key_of(old(self).key@) {
                            Some(*final(v))
                        } else {
                            old(self).values.get_spec(kb)
                        }
                },
                None => {
                    &&& old(self).values.get_spec(key_of(old(self).key@)) is None
                    &&& *final(self).values == *old(self).values
                },
            },
    {
        match self.values.find(&self.key) {
            Ok(i) => {
                proof {
                    lemma_lookup_at(self.values.entries@, i as int);
                }
                Some(self.values.value_at_mut(i))
            },
            Err(_) => None,
        }
    }

    /// Sets the value, returning a mutable reference to it.
    pub fn set(self, value: V) -> (r: &'a mut V)
        requires
            old(self.values).wf(),
        ensures
            *r == value,
            final(self.values).wf(),
            forall|kb: Seq<u8>| #[trigger]
                final(self.values).get_spec(kb) == if kb == key_of(self.key@) {
                    Some(*final(r))
                } else {
                    old(self.values).get_spec(kb)
                },
    {
        let ContextValue { values, key } = self;
        let i = values.upsert(key, value);
        values.value_at_mut(i)
    }

    /// Takes the value out, if there is one.
    pub fn take(self) -> (r: Option<V>)
        requires
            old(self.values).wf(),
        ensures
            r == old(self.values).get_spec(key_of(self.key@)),
            final(self.values).wf(),
            forall|kb: Seq<u8>| #[trigger]
                final(self.values).get_spec(kb) == if kb == key_of(self.key@) {
                    None
                } else {
                    old(self.values).get_spec(kb)
                },
    {
        let ContextValue { values, key } = self;
        values.remove(&key)
    }
}

impl<'a, V: DefaultValue> ContextValue<'a, V> {
    /// Gets the value, first setting it to the default where there is none.
    pub fn or_default(self) -> (r: &'a mut V)
        requires
            old(self.values).wf(),
        ensures
            match old(self.values).get_spec(key_of(self.key@)) {
                Some(v) => *r == v,
                None => r.is_default_value(),
            },
            final(self.values).wf(),
            forall|kb: Seq<u8>| #[trigger]
                final(self.values).get_spec(kb) == if kb == key_of(self.key@) {
                    Some(*final(r))
                } else {
                    old(self.values).get_spec(kb)
                },
    {
        let ContextValue { values, key } = self;
        match values.find(&key) {
            Ok(i) => {
                proof {
                    lemma_lookup_at(values.entries@, i as int);
                }
                values.value_at_mut(i)
            },
            Err(_) => {
                let i = values.upsert(key, V::default_value());
                values.value_at_mut(i)
            },
        }
    }
}

} // verus!
