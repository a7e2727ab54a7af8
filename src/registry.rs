use vstd::prelude::*;

use crate::dispatch::{logged_of, DispatchBridge};
use crate::message::DecodedMessage;
use crate::server::ServerHandler;

verus! {

/// Why a command on the registry was refused.
#[derive(PartialEq, Eq, Structural, Clone, Copy, Debug)]
pub enum CommandError {
    /// `start` while the registered server is running.
    AlreadyRunning,
    /// `stop` while no server is running.
    NotRunning,
    /// `start` when the address could not be bound.
    BindFailure,
}

/// The number that the next started instance gets.
pub open spec fn next_generation(g: u64) -> u64 {
    if g == u64::MAX {
        0
    } else {
        (g + 1) as u64
    }
}

/// Holds the server instance of the process, if one was started, and the
/// message log that outlives its instances: the log is the callback of the
/// registered instance, and waits in `idle` while there is none. Each start
/// makes a new instance with a new generation number, by which a polling loop
/// knows whether it still serves the registered instance.
pub struct Registry {
    server: Option<ServerHandler<DispatchBridge>>,
    idle: DispatchBridge,
    generation: u64,
}

impl Registry {
    /// Whether an instance is registered and running.
    pub closed spec fn running(&self) -> bool {
        match self.server {
            Some(s) => !s.is_closed_spec(),
            None => false,
        }
    }

    /// The address of the registered instance, empty where there is none.
    pub closed spec fn address_spec(&self) -> Seq<char> {
        match self.server {
            Some(s) => s.address_spec(),
            None => Seq::empty(),
        }
    }

    closed spec fn bridge(&self) -> DispatchBridge {
        match self.server {
            Some(s) => s.handler_spec(),
            None => self.idle,
        }
    }

    /// The message log, in order of receipt.
    pub closed spec fn log_spec(&self) -> Seq<String> {
        self.bridge().log_spec()
    }

    /// The strings waiting for the event forwarder, oldest first.
    pub closed spec fn outbox_spec(&self) -> Seq<String> {
        self.bridge().outbox_spec()
    }

    /// The generation number of the registered instance.
    pub closed spec fn generation_spec(&self) -> u64 {
        self.generation
    }

    /// `next` is `prev` after a start at `address` that succeeded.
    pub open spec fn started_from(prev: Registry, address: Seq<char>, next: Registry) -> bool {
        &&& next.running()
        &&& next.address_spec() == address
        &&& next.log_spec() == prev.log_spec()
        &&& next.outbox_spec() == prev.outbox_spec()
        &&& next.generation_spec() == next_generation(prev.generation_spec())
    }

    /// `next` is `prev` after a stop that succeeded.
    pub open spec fn stopped_from(prev: Registry, next: Registry) -> bool {
        &&& !next.running()
        &&& next.address_spec() == prev.address_spec()
        &&& next.log_spec() == prev.log_spec()
        &&& next.outbox_spec() == prev.outbox_spec()
        &&& next.generation_spec() == prev.generation_spec()
    }

    /// A registry with no server started and an empty log.
    pub fn new() -> (r: Registry)
        ensures
            !r.running(),
            r.log_spec() == Seq::<String>::empty(),
            r.outbox_spec() == Seq::<String>::empty(),
            r.generation_spec() == 0,
    {
        Registry { server: None, idle: DispatchBridge::new(), generation: 0 }
    }

    /// Whether a server is registered and running.
    pub fn status(&self) -> (r: bool)
        ensures
            r == self.running(),
    {
        match &self.server {
            Some(s) => !s.is_closed(),
            None => false,
        }
    }

    /// Registers and runs a new instance at `address`, keeping the log.
    /// `bound` tells whether the socket could be bound there. Returns the
    /// new instance's generation number.
    pub fn start(&mut self, address: &str, bound: bool) -> (r: Result<u64, CommandError>)
        ensures
            old(self).running() ==> r == Err::<u64, CommandError>(CommandError::AlreadyRunning),
            !old(self).running() && !bound ==> r == Err::<u64, CommandError>(
                CommandError::BindFailure,
            ),
            r is Err ==> *final(self) == *old(self),
            r is Ok <==> !old(self).running() && bound,
            r is Ok ==> Registry::started_from(*old(self), address@, *final(self)) && r
                == Ok::<u64, CommandError>(final(self).generation_spec()),
    {
        if self.status() {
            return Err(CommandError::AlreadyRunning);
        }
        if !bound {
            return Err(CommandError::BindFailure);
        }
        let bridge = match self.server.take() {
            Some(retired) => retired.into_handler(),
            None => {
                let mut b = DispatchBridge::new();
                std::mem::swap(&mut b, &mut self.idle);
                b
            },
        };
        let mut fresh = ServerHandler::new(address, bridge);
        fresh.run();
        self.server = Some(fresh);
        self.generation = if self.generation == u64::MAX {
            0
        } else {
            self.generation + 1
        };
        Ok(self.generation)
    }

    /// Stops the running instance; its polling loop leaves at its next check.
    pub fn stop(&mut self) -> (r: Result<(), CommandError>)
        ensures
            r is Ok <==> old(self).running(),
            r is Err ==> r == Err::<(), CommandError>(CommandError::NotRunning) && *final(self)
                == *old(self),
            r is Ok ==> Registry::stopped_from(*old(self), *final(self)),
    {
        match &mut self.server {
            Some(s) => {
                if s.is_closed() {
                    return Err(CommandError::NotRunning);
                }
                s.close();
                Ok(())
            },
            None => Err(CommandError::NotRunning),
        }
    }

    /// The check at the top of each iteration of the polling loop of the
    /// instance numbered `generation`.
    pub fn keep_polling(&self, generation: u64) -> (r: bool)
        ensures
            r == (generation == self.generation_spec() && self.running()),
    {
        generation == self.generation && self.status()
    }

    /// Handles one request received by the polling loop of the instance
    /// numbered `generation`. `decoded` is what the codec made of it. The
    /// reply is the request itself; only the running registered instance
    /// dispatches, and only a message that decoded.
    pub fn serve(&mut self, generation: u64, request: Vec<u8>, decoded: Option<DecodedMessage>) -> (reply: Vec<u8>)
        ensures
            reply@ == request@,
            final(self).running() == old(self).running(),
            final(self).address_spec() == old(self).address_spec(),
            final(self).generation_spec() == old(self).generation_spec(),
            ({
                let dispatched = generation == old(self).generation_spec() && old(self).running()
                    && decoded is Some;
                let added = if dispatched {
                    logged_of(decoded->0)
                } else {
                    Seq::empty()
                };
                &&& final(self).log_spec() == old(self).log_spec() + added
                &&& final(self).outbox_spec() == old(self).outbox_spec() + added
            }),
    {
        if generation == self.generation && self.server.is_some() {
            let reply = match &mut self.server {
                Some(s) => s.serve(request, decoded),
                None => request,
            };
            proof {
                if !(old(self).running() && decoded is Some) {
                    assert(old(self).log_spec() + Seq::<String>::empty() =~= old(self).log_spec());
                    assert(old(self).outbox_spec() + Seq::<String>::empty() =~= old(self).outbox_spec());
                }
            }
            reply
        } else {
            proof {
                assert(old(self).log_spec() + Seq::<String>::empty() =~= old(self).log_spec());
                assert(old(self).outbox_spec() + Seq::<String>::empty() =~= old(self).outbox_spec());
            }
            request
        }
    }

    /// The message log, in order of receipt.
    pub fn received(&self) -> (r: &Vec<String>)
        ensures
            r@ == self.log_spec(),
    {
        match &self.server {
            Some(s) => s.handler().received(),
            None => self.idle.received(),
        }
    }

    /// Hands the strings queued for the event forwarder over, oldest first.
    pub fn take_forwards(&mut self) -> (r: Vec<String>)
        ensures
            r@ == old(self).outbox_spec(),
            final(self).outbox_spec() == Seq::<String>::empty(),
            final(self).log_spec() == old(self).log_spec(),
            final(self).running() == old(self).running(),
            final(self).address_spec() == old(self).address_spec(),
            final(self).generation_spec() == old(self).generation_spec(),
    {
        match &mut self.server {
            Some(s) => s.handler_mut().take_forwards(),
            None => self.idle.take_forwards(),
        }
    }
}

/// `status` is false before any start, true once a start succeeded, and false
/// again once a stop succeeded.
pub proof fn lemma_status_lifecycle(fresh: Registry, address: Seq<char>, started: Registry, stopped: Registry)
    requires
        !fresh.running(),
        Registry::started_from(fresh, address, started),
        Registry::stopped_from(started, stopped),
    ensures
        !fresh.running(),
        started.running(),
        !stopped.running(),
        stopped.log_spec() == fresh.log_spec(),
{
}

} // verus!
