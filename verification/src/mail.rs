//! The outbound mail work queue: a backlog of send-jobs drained against an
//! external transport by a background loop.
//!
//! As with the task scheduler, the decision half of the loop lives here as
//! plain verified transitions: enqueue stamps the sender address on the job
//! and signals a wake; the drain loop pops the most recently pushed job
//! until the backlog is empty; the transport itself is driven by the
//! application around this crate.
use vstd::prelude::*;

use crate::queue::wake_after_add;
use crate::queue::wake_broadcast;
use crate::queue::WakeSignal;

verus! {

/// One outbound message, treated by the queue as an atomic unit.
#[derive(Debug, Clone)]
pub struct EmailBody {
    /// The receiver's address.
    pub email_receiver: String,
    /// The sender's address; `queue_send` stamps it from the configured
    /// account.
    pub mine_email: String,
    /// The subject line.
    pub subject: String,
    /// The body text.
    pub content: String,
    /// Whether the body is HTML.
    pub html_email: bool,
}

impl EmailBody {
    /// An exact copy, field for field.
    pub fn duplicate(&self) -> (r: Self)
        ensures
            r == *self,
    {
        EmailBody {
            email_receiver: self.email_receiver.clone(),
            mine_email: self.mine_email.clone(),
            subject: self.subject.clone(),
            content: self.content.clone(),
            html_email: self.html_email,
        }
    }
}

impl Default for EmailBody {
    /// An empty message.
    fn default() -> (r: Self)
        ensures
            r.email_receiver@.len() == 0,
            r.mine_email@.len() == 0,
            r.subject@.len() == 0,
            r.content@.len() == 0,
            r.html_email == false,
    {
        EmailBody {
            email_receiver: String::new(),
            mine_email: String::new(),
            subject: String::new(),
            content: String::new(),
            html_email: false,
        }
    }
}

/// The transport parameters used to build a connection for each draining
/// session.
#[derive(Debug, Clone)]
pub struct EmailServerConfig {
    /// The relay server.
    pub smtp_server: String,
    /// The account's password.
    pub password: String,
    /// The relay port.
    pub port: String,
    /// The sending account's address.
    pub mine_email: String,
    /// Whether the connection uses TLS.
    pub ssl: bool,
}

impl EmailServerConfig {
    /// An exact copy, field for field.
    pub fn duplicate(&self) -> (r: Self)
        ensures
            r == *self,
    {
        EmailServerConfig {
            smtp_server: self.smtp_server.clone(),
            password: self.password.clone(),
            port: self.port.clone(),
            mine_email: self.mine_email.clone(),
            ssl: self.ssl,
        }
    }
}

impl Default for EmailServerConfig {
    /// An unconfigured transport: every field empty, no TLS.
    fn default() -> (r: Self)
        ensures
            r.smtp_server@.len() == 0,
            r.password@.len() == 0,
            r.port@.len() == 0,
            r.mine_email@.len() == 0,
            r.ssl == false,
    {
        EmailServerConfig {
            smtp_server: String::new(),
            password: String::new(),
            port: String::new(),
            mine_email: String::new(),
            ssl: false,
        }
    }
}

/// The job as the queue stores it: the caller's message with the sender
/// address stamped from the configured account.
pub open spec fn stamped_body(e: EmailBody, c: EmailServerConfig) -> EmailBody {
    EmailBody { mine_email: c.mine_email, ..e }
}

/// The order in which a backlog is drained: last pushed, first drained.
pub open spec fn drained_order(s: Seq<EmailBody>) -> Seq<EmailBody> {
    s.reverse()
}

/// The mail queue state: the backlog, the transport configuration, the
/// running flag of the drain loop, and its pending wake state.
#[derive(Debug, Clone)]
pub struct EmailSendingQueue {
    /// The backlog, in order of arrival; drained from the back.
    pub queue: Vec<EmailBody>,
    /// The transport parameters, read at each draining session.
    pub client_conf: EmailServerConfig,
    /// Whether the drain loop runs.
    pub started: bool,
    /// The pending wake state of the loop's wait step.
    pub wake: WakeSignal,
}

impl EmailSendingQueue {
    /// An empty, stopped, unconfigured queue.
    pub fn new() -> (r: Self)
        ensures
            r.queue@.len() == 0,
            r.client_conf.smtp_server@.len() == 0,
            r.client_conf.password@.len() == 0,
            r.client_conf.port@.len() == 0,
            r.client_conf.mine_email@.len() == 0,
            r.client_conf.ssl == false,
            r.started == false,
            r.wake == WakeSignal::Quiet,
    {
        EmailSendingQueue {
            queue: Vec::new(),
            client_conf: EmailServerConfig {
                smtp_server: String::new(),
                password: String::new(),
                port: String::new(),
                mine_email: String::new(),
                ssl: false,
            },
            started: false,
            wake: WakeSignal::Quiet,
        }
    }

    /// Sets the transport parameters used by later draining sessions.
    pub fn config(
        &mut self,
        smtp_server: String,
        password: String,
        port: String,
        mine_email: String,
        ssl: bool,
    )
        ensures
            final(self).client_conf.smtp_server == smtp_server,
            final(self).client_conf.password == password,
            final(self).client_conf.port == port,
            final(self).client_conf.mine_email == mine_email,
            final(self).client_conf.ssl == ssl,
            final(self).queue@ == old(self).queue@,
            final(self).started == old(self).started,
            final(self).wake == old(self).wake,
    {
        self.client_conf.smtp_server = smtp_server;
        self.client_conf.password = password;
        self.client_conf.mine_email = mine_email;
        self.client_conf.port = port;
        self.client_conf.ssl = ssl;
    }

    /// Appends a send-job, stamped with the configured sender address, and
    /// signals the drain loop to wake.
    pub fn queue_send(&mut self, emb: &EmailBody)
        ensures
            final(self).queue@ == old(self).queue@.push(
                stamped_body(*emb, old(self).client_conf),
            ),
            final(self).wake == wake_after_add(old(self).wake),
            final(self).client_conf == old(self).client_conf,
            final(self).started == old(self).started,
    {
        let mut clemb = emb.duplicate();
        clemb.mine_email = self.client_conf.mine_email.clone();
        self.queue.push(clemb);
        self.wake = if self.wake == WakeSignal::WakeAll {
            WakeSignal::WakeAll
        } else {
            WakeSignal::WakeOne
        };
    }

    /// The drain loop's step: takes the most recently pushed job, if any.
    pub fn pop_next(&mut self) -> (r: Option<EmailBody>)
        ensures
            old(self).queue@.len() == 0 ==> r is None && final(self).queue@ == old(self).queue@,
            old(self).queue@.len() > 0 ==> r == Some(old(self).queue@.last())
                && final(self).queue@ == old(self).queue@.drop_last(),
            final(self).client_conf == old(self).client_conf,
            final(self).started == old(self).started,
            final(self).wake == old(self).wake,
    {
        self.queue.pop()
    }

    /// Marks the drain loop as running; reports whether it was stopped
    /// before, so that the caller spawns the loop exactly once.
    pub fn start(&mut self) -> (spawn: bool)
        ensures
            final(self).started == true,
            spawn == !old(self).started,
            final(self).queue@ == old(self).queue@,
            final(self).client_conf == old(self).client_conf,
            final(self).wake == old(self).wake,
    {
        let spawn = !self.started;
        self.started = true;
        spawn
    }

    /// Requests the drain loop to stop and wakes all its waiters; it does
    /// not wait for the loop to exit.
    pub fn shutdown(&mut self)
        ensures
            final(self).started == false,
            final(self).wake == wake_broadcast(old(self).started, old(self).wake),
            final(self).queue@ == old(self).queue@,
            final(self).client_conf == old(self).client_conf,
    {
        if self.started {
            self.started = false;
            self.wake = WakeSignal::WakeAll;
        }
    }

    /// The wait step's check: reports whether a wake was pending and
    /// consumes it.
    pub fn take_wake_signal(&mut self) -> (woken: bool)
        ensures
            woken == (old(self).wake != WakeSignal::Quiet),
            final(self).wake == WakeSignal::Quiet,
            final(self).queue@ == old(self).queue@,
            final(self).client_conf == old(self).client_conf,
            final(self).started == old(self).started,
    {
        let woken = !(self.wake == WakeSignal::Quiet);
        self.wake = WakeSignal::Quiet;
        woken
    }

    /// How many jobs wait in the backlog.
    pub fn count(&self) -> (r: usize)
        ensures
            r == self.queue@.len(),
    {
        self.queue.len()
    }
}

impl Default for EmailSendingQueue {
    /// The same empty queue that `new` builds.
    fn default() -> (r: Self)
        ensures
            r.queue@.len() == 0,
            r.started == false,
            r.wake == WakeSignal::Quiet,
    {
        EmailSendingQueue::new()
    }
}

/// Marks the drain loop as running; reports whether the caller must spawn
/// it.
pub fn start_email_queue_thread(q: &mut EmailSendingQueue) -> (spawn: bool)
    ensures
        final(q).started == true,
        spawn == !old(q).started,
        final(q).queue@ == old(q).queue@,
        final(q).client_conf == old(q).client_conf,
        final(q).wake == old(q).wake,
{
    q.start()
}

/// Requests the drain loop to stop and wakes all waiters.
pub fn stop_email_queue_thread(q: &mut EmailSendingQueue)
    ensures
        final(q).started == false,
        final(q).wake == wake_broadcast(old(q).started, old(q).wake),
        final(q).queue@ == old(q).queue@,
        final(q).client_conf == old(q).client_conf,
{
    q.shutdown()
}

/// Draining a backlog one `pop_next` at a time hands out exactly the jobs
/// that were enqueued, each exactly once, most recent first.
pub proof fn lemma_drain_handles_each_item_once(s: Seq<EmailBody>)
    ensures
        drained_order(s).len() == s.len(),
        drained_order(s).to_multiset() == s.to_multiset(),
{
    s.lemma_reverse_to_multiset();
}

/// One drain step takes the most recently pushed job and leaves the rest:
/// the drained order unrolls from the back of the backlog.
pub proof fn lemma_drain_step(s: Seq<EmailBody>)
    requires
        s.len() > 0,
    ensures
        drained_order(s) == seq![s.last()] + drained_order(s.drop_last()),
{
    assert(drained_order(s) =~= seq![s.last()] + drained_order(s.drop_last()));
}

} // verus!
