use vstd::prelude::*;
use crate::client::{encode_summary, Client};
use crate::errors::{ConfigError, SetError};
use crate::record::{Record, RecordData};
use crate::store::{spec_ingest, RecordSet};

verus! {

/// Construction parameters for a gossiper: the tick period and how many
/// peers each round polls. A `poll_size` of zero is a valid idle
/// configuration in which rounds contact nobody.
pub struct Config {
    /// Gossip period in milliseconds; must be strictly positive.
    pub frequency: u64,
    /// Upper bound on peers contacted per round.
    pub poll_size: usize,
}

/// The gossiper's lifecycle. `Stopped` is terminal: a stopped gossiper is
/// recreated, never restarted.
#[derive(Clone, Copy, Debug, PartialEq, Eq, Structural)]
pub enum Phase {
    Idle,
    Running,
    Stopped,
}

/// What the scheduling loop observed: a timer tick, or the one-shot stop
/// signal.
#[derive(Clone, Copy, Debug, PartialEq, Eq, Structural)]
pub enum GossipEvent {
    Tick,
    Stop,
}

/// What the scheduling loop must do next: keep waiting for events, or
/// exit for good.
#[derive(Clone, Copy, Debug, PartialEq, Eq, Structural)]
pub enum Directive {
    Continue,
    Exit,
}

/// The orchestrator: on each tick it runs one reconciliation round against
/// its record store through its peer client, until the stop signal
/// arrives. Rounds of one gossiper never overlap: each event is handled
/// to completion before the next is taken.
pub struct Gossiper<C: Client> {
    config: Config,
    store: RecordSet,
    client: C,
    phase: Phase,
}

impl<C: Client> Gossiper<C> {
    /// All reachable gossipers satisfy this: the store invariant holds and
    /// the configured period is positive.
    pub closed spec fn wf(&self) -> bool {
        &&& self.store.wf()
        &&& self.config.frequency > 0
    }

    pub closed spec fn phase(&self) -> Phase {
        self.phase
    }

    pub closed spec fn store_view(&self) -> Seq<RecordData> {
        self.store@
    }

    pub closed spec fn store_cap(&self) -> nat {
        self.store.cap()
    }

    pub closed spec fn client_view(&self) -> C {
        self.client
    }

    pub closed spec fn poll_size(&self) -> nat {
        self.config.poll_size as nat
    }

    pub closed spec fn frequency(&self) -> u64 {
        self.config.frequency
    }

    /// Builds an idle gossiper, failing fast on an invalid configuration:
    /// the period must be strictly positive.
    pub fn new(config: Config, store: RecordSet, client: C) -> (r: Result<
        Gossiper<C>,
        ConfigError,
    >)
        requires
            store.wf(),
        ensures
            r is Ok <==> config.frequency > 0,
            r is Err ==> r == Err::<Gossiper<C>, ConfigError>(ConfigError::ZeroFrequency),
            r is Ok ==> {
                let g = r->Ok_0;
                &&& g.wf()
                &&& g.phase() == Phase::Idle
                &&& g.store_view() == store@
                &&& g.store_cap() == store.cap()
                &&& g.client_view() == client
                &&& g.poll_size() == config.poll_size as nat
                &&& g.frequency() == config.frequency
            },
    {
        if config.frequency == 0 {
            return Err(ConfigError::ZeroFrequency);
        }
        Ok(Gossiper { config, store, client, phase: Phase::Idle })
    }

    /// Enters the running phase; the scheduling loop calls this once
    /// before delivering events.
    pub fn start(&mut self)
        requires
            old(self).wf(),
            old(self).phase() == Phase::Idle,
        ensures
            final(self).wf(),
            final(self).phase() == Phase::Running,
            final(self).store_view() == old(self).store_view(),
            final(self).store_cap() == old(self).store_cap(),
            final(self).client_view() == old(self).client_view(),
            final(self).poll_size() == old(self).poll_size(),
            final(self).frequency() == old(self).frequency(),
    {
        self.phase = Phase::Running;
    }

    /// One push-pull reconciliation round: summarise the store, and
    /// broadcast the summary to up to `poll_size` peers. With a
    /// `poll_size` of zero the round is a no-op and the client is not
    /// used at all. Peer failures are absorbed here; the only failure
    /// this could report is one of the local store, and this store's
    /// summary cannot fail.
    pub fn single_round(&mut self) -> (r: Result<(), SetError>)
        requires
            old(self).wf(),
        ensures
            final(self).wf(),
            r is Ok,
            final(self).phase() == old(self).phase(),
            final(self).store_view() == old(self).store_view(),
            final(self).store_cap() == old(self).store_cap(),
            final(self).poll_size() == old(self).poll_size(),
            final(self).frequency() == old(self).frequency(),
            old(self).poll_size() == 0 ==> *final(self) == *old(self),
            old(self).poll_size() > 0 ==> final(self).client_view().sends() == old(
                self,
            ).client_view().sends() + 1,
    {
        if self.config.poll_size == 0 {
            return Ok(());
        }
        let (filter, salt_bytes) = match self.store.get_filter() {
            Ok(p) => p,
            Err(e) => {
                return Err(e);
            },
        };
        let payload = encode_summary(&filter, &salt_bytes);
        let _ = self.client.app_gossip(payload);
        Ok(())
    }

    /// Feeds records learned from peers back into the store, one `add`
    /// each; duplicates and invalid records are dropped silently.
    pub fn handle_response(&mut self, records: Vec<Record>)
        requires
            old(self).wf(),
        ensures
            final(self).wf(),
            final(self).phase() == old(self).phase(),
            final(self).store_view() == spec_ingest(
                old(self).store_view(),
                records@.map_values(|r: Record| r@),
                old(self).store_cap(),
            ),
            final(self).store_cap() == old(self).store_cap(),
            final(self).client_view() == old(self).client_view(),
            final(self).poll_size() == old(self).poll_size(),
            final(self).frequency() == old(self).frequency(),
    {
        self.store.ingest(records);
    }

    /// Handles one scheduling event. A tick runs exactly one round, whose
    /// failure never escapes the loop; the stop signal moves the gossiper
    /// to its terminal phase at once, before any further round, leaving
    /// the store and the client untouched.
    pub fn gossip_step(&mut self, ev: GossipEvent) -> (d: Directive)
        requires
            old(self).wf(),
            old(self).phase() == Phase::Running,
        ensures
            final(self).wf(),
            final(self).store_cap() == old(self).store_cap(),
            final(self).poll_size() == old(self).poll_size(),
            final(self).frequency() == old(self).frequency(),
            ev == GossipEvent::Stop ==> {
                &&& d == Directive::Exit
                &&& final(self).phase() == Phase::Stopped
                &&& final(self).store_view() == old(self).store_view()
                &&& final(self).client_view() == old(self).client_view()
            },
            ev == GossipEvent::Tick ==> {
                &&& d == Directive::Continue
                &&& final(self).phase() == Phase::Running
                &&& final(self).store_view() == old(self).store_view()
                &&& (old(self).poll_size() == 0 ==> final(self).client_view() == old(
                    self).client_view())
                &&& (old(self).poll_size() > 0 ==> final(self).client_view().sends() == old(
                    self).client_view().sends() + 1)
            },
    {
        match ev {
            GossipEvent::Stop => {
                self.phase = Phase::Stopped;
                Directive::Exit
            },
            GossipEvent::Tick => {
                let _ = self.single_round();
                Directive::Continue
            },
        }
    }

    /// The configured gossip period in milliseconds.
    pub fn frequency_ms(&self) -> (f: u64)
        ensures
            f == self.frequency(),
    {
        self.config.frequency
    }

    /// The lifecycle phase this gossiper is in.
    pub fn current_phase(&self) -> (p: Phase)
        ensures
            p == self.phase(),
    {
        self.phase
    }

    /// The record store, for local producers and observers.
    pub fn store(&self) -> (s: &RecordSet)
        ensures
            s@ == self.store_view(),
            s.cap() == self.store_cap(),
            self.wf() ==> s.wf(),
    {
        &self.store
    }

    /// Adds a locally produced record to the store, as application logic
    /// does between rounds.
    pub fn add_record(&mut self, record: Record) -> (r: Result<(), SetError>)
        requires
            old(self).wf(),
        ensures
            final(self).wf(),
            final(self).phase() == old(self).phase(),
            final(self).store_view() == crate::store::spec_add(
                old(self).store_view(),
                record@,
                old(self).store_cap(),
            ).0,
            r == crate::store::spec_add(
                old(self).store_view(),
                record@,
                old(self).store_cap(),
            ).1,
            final(self).store_cap() == old(self).store_cap(),
            final(self).client_view() == old(self).client_view(),
            final(self).poll_size() == old(self).poll_size(),
            final(self).frequency() == old(self).frequency(),
    {
        self.store.add(record)
    }

    /// The peer client, for observers.
    pub fn client(&self) -> (c: &C)
        ensures
            c == self.client_view(),
    {
        &self.client
    }

    /// Mutable access to the peer client, for collecting in-process
    /// responses; the rest of the gossiper is untouched.
    pub fn client_mut(&mut self) -> (c: &mut C)
        ensures
            *c == old(self).client_view(),
            final(self).client_view() == *final(c),
            final(self).wf() == old(self).wf(),
            final(self).phase() == old(self).phase(),
            final(self).store_view() == old(self).store_view(),
            final(self).store_cap() == old(self).store_cap(),
            final(self).poll_size() == old(self).poll_size(),
            final(self).frequency() == old(self).frequency(),
    {
        &mut self.client
    }
}

} // verus!
