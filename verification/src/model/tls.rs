//! Whether and when a connection switches to TLS, and the signal that the
//! session side sends to the stream side to make it switch.
use vstd::prelude::*;
use std::sync::mpsc::{Receiver, Sender};

verus! {

#[verifier::external_type_specification]
#[verifier::external_body]
#[verifier::reject_recursive_types(T)]
pub struct ExSender<T>(Sender<T>);

#[verifier::external_type_specification]
#[verifier::external_body]
#[verifier::reject_recursive_types(T)]
pub struct ExReceiver<T>(Receiver<T>);

/// Makes a channel for the signal to switch to TLS.
///
/// Calls `std::sync::mpsc::channel`; nothing is claimed of the two ends
/// beyond their types.
#[verifier::external_body]
fn signal_channel() -> (r: (Sender<()>, Receiver<()>)) {
    std::sync::mpsc::channel()
}

/// Sends the signal; whether the other end was still there comes back.
///
/// Calls `Sender::send`; its outcome depends on the other end, so nothing
/// is claimed of it.
#[verifier::external_body]
fn send_signal(sender: &Sender<()>) -> (r: bool) {
    sender.send(()).is_ok()
}

/// What looking for the signal found.
#[derive(Debug, Clone, Copy, PartialEq, Eq)]
pub enum Signal {
    /// The signal was sent.
    Received,
    /// Nothing was sent yet.
    Empty,
    /// The sending end is gone.
    Disconnected,
}

/// Looks for the signal without waiting.
///
/// Calls `Receiver::try_recv` and tells its outcomes apart; what comes back
/// depends on the other end, so nothing is claimed of it.
#[verifier::external_body]
fn try_signal(receiver: &Receiver<()>) -> (r: Signal) {
    match receiver.try_recv() {
        Ok(()) => Signal::Received,
        Err(std::sync::mpsc::TryRecvError::Empty) => Signal::Empty,
        Err(std::sync::mpsc::TryRecvError::Disconnected) => Signal::Disconnected,
    }
}

/// How a server offers TLS.
#[derive(Debug, Clone, Copy, PartialEq, Eq, Structural)]
pub enum TlsMode {
    Disabled,
    Enabled,
    StartTlsOptional,
    StartTlsRquired,
}

/// Where the server identity for TLS is kept.
#[derive(Debug, Clone, PartialEq, Eq)]
pub struct TlsIdFile {
    /// The path of the identity file.
    pub file: String,
    /// The password of the identity file, if it has one.
    pub password: Option<Vec<u8>>,
}

impl View for TlsIdFile {
    type V = (Seq<char>, Option<Seq<u8>>);

    open spec fn view(&self) -> (Seq<char>, Option<Seq<u8>>) {
        (self.file@, match self.password {
            Some(p) => Some(p@),
            None => None,
        })
    }
}

fn copy_id(id: &TlsIdFile) -> (r: TlsIdFile)
    ensures
        r@ == id@,
{
    let password = match &id.password {
        None => None,
        Some(v) => Some(v.clone()),
    };
    TlsIdFile { file: id.file.clone(), password }
}

/// The TLS setup of a server.
#[derive(Debug, Clone, PartialEq, Eq)]
pub struct TlsConfig {
    pub mode: TlsMode,
    pub id: TlsIdFile,
}

impl Default for TlsConfig {
    /// TLS off, with the identity looked for in `Samotop.pfx`.
    fn default() -> (r: Self)
        ensures
            r.mode == TlsMode::Disabled,
            r.id.file@ == "Samotop.pfx"@,
            r.id.password is None,
    {
        Self { mode: TlsMode::Disabled, id: TlsIdFile { file: String::from_str("Samotop.pfx"), password: None } }
    }
}

impl TlsConfig {
    /// The two ends of the switch: the controll for the session and the
    /// worker for the stream.
    pub fn parts(&self) -> (r: (TlsControll, TlsWorker))
        ensures
            r.0.mode() == self.mode,
            r.1.current_mode() == self.mode,
            r.1.identity()@ == self.id@,
    {
        let (stls_tx, stls_rx) = signal_channel();
        let id = copy_id(&self.id);
        (TlsControll::new(stls_tx, self.mode), TlsWorker::new(stls_rx, self.mode, id))
    }

    /// TLS stays as configured only where the identity file exists; else it
    /// is disabled.
    pub fn check_identity(self, file_exists: bool) -> (r: Self)
        ensures
            r.id == self.id,
            r.mode == (if self.mode == TlsMode::Disabled || file_exists { self.mode } else { TlsMode::Disabled }),
    {
        if self.mode == TlsMode::Disabled {
            return self;
        }
        let Self { mut mode, id } = self;
        if !file_exists {
            mode = TlsMode::Disabled;
        }
        Self { id, mode }
    }
}

/// The mode after looking for the signal: a mode that waits for STARTTLS
/// turns on when the signal came and off when nobody can send it anymore.
pub open spec fn mode_after(mode: TlsMode, signal: Signal) -> TlsMode {
    match mode {
        TlsMode::Disabled => TlsMode::Disabled,
        TlsMode::Enabled => TlsMode::Enabled,
        m => match signal {
            Signal::Received => TlsMode::Enabled,
            Signal::Empty => m,
            Signal::Disconnected => TlsMode::Disabled,
        },
    }
}

/// Once TLS is on or off for good, looking for the signal changes nothing:
/// a mode that the signal has settled stays.
pub proof fn lemma_mode_settles(mode: TlsMode, first: Signal, then: Signal)
    requires
        mode_after(mode, first) == TlsMode::Enabled || mode_after(mode, first) == TlsMode::Disabled,
    ensures
        mode_after(mode_after(mode, first), then) == mode_after(mode, first),
{
}

/// The mode after looking for the signal.
pub fn next_mode(mode: TlsMode, signal: Signal) -> (r: TlsMode)
    ensures
        r == mode_after(mode, signal),
{
    match mode {
        TlsMode::Disabled => TlsMode::Disabled,
        TlsMode::Enabled => TlsMode::Enabled,
        m => match signal {
            Signal::Received => TlsMode::Enabled,
            Signal::Empty => m,
            Signal::Disconnected => TlsMode::Disabled,
        },
    }
}

/// The stream side of the switch.
pub struct TlsWorker {
    signal: Receiver<()>,
    mode: TlsMode,
    id: TlsIdFile,
}

impl TlsWorker {
    pub closed spec fn current_mode(&self) -> TlsMode {
        self.mode
    }

    pub closed spec fn identity(&self) -> TlsIdFile {
        self.id
    }

    pub fn new(signal: Receiver<()>, mode: TlsMode, id: TlsIdFile) -> (r: Self)
        ensures
            r.current_mode() == mode,
            r.identity() == id,
    {
        Self { signal, mode, id }
    }

    pub fn id(&mut self) -> (r: TlsIdFile)
        ensures
            r@ == old(self).identity()@,
            final(self).current_mode() == old(self).current_mode(),
            final(self).identity() == old(self).identity(),
    {
        copy_id(&self.id)
    }

    /// The mode, brought up to date with the signal where it waits for one.
    pub fn mode(&mut self) -> (r: TlsMode)
        ensures
            r == final(self).current_mode(),
            final(self).identity() == old(self).identity(),
            exists|s: Signal| r == mode_after(old(self).current_mode(), s),
            old(self).current_mode() == TlsMode::Disabled ==> r == TlsMode::Disabled,
            old(self).current_mode() == TlsMode::Enabled ==> r == TlsMode::Enabled,
    {
        let mode = match self.mode {
            TlsMode::Disabled => TlsMode::Disabled,
            TlsMode::Enabled => TlsMode::Enabled,
            m => {
                let s = try_signal(&self.signal);
                next_mode(m, s)
            },
        };
        proof {
            if self.mode == TlsMode::Disabled || self.mode == TlsMode::Enabled {
                assert(mode == mode_after(self.mode, Signal::Empty));
            }
        }
        self.mode = mode;
        self.mode
    }

    /// Whether a plain stream is to be switched to TLS now, where the caller
    /// is ready for it: always where TLS is on, never where it is off, and
    /// on the signal where TLS waits for STARTTLS.
    pub fn upgrade_now(&mut self, upgrade: bool) -> (r: bool)
        ensures
            r ==> upgrade,
            !upgrade ==> final(self).current_mode() == old(self).current_mode(),
            upgrade ==> r == (final(self).current_mode() == TlsMode::Enabled),
            final(self).identity() == old(self).identity(),
            exists|s1: Signal, s2: Signal| final(self).current_mode() == mode_after(mode_after(old(self).current_mode(), s1), s2),
    {
        if !upgrade {
            proof {
                assert(self.mode == mode_after(mode_after(self.mode, Signal::Empty), Signal::Empty));
            }
            return false;
        }
        match self.mode() {
            TlsMode::Disabled => {
                proof {
                    let s1 = choose|s: Signal| self.mode == mode_after(old(self).mode, s);
                    assert(self.mode == mode_after(mode_after(old(self).mode, s1), Signal::Empty));
                }
                false
            },
            TlsMode::Enabled => {
                proof {
                    let s1 = choose|s: Signal| self.mode == mode_after(old(self).mode, s);
                    assert(self.mode == mode_after(mode_after(old(self).mode, s1), Signal::Empty));
                }
                true
            },
            _ => self.should_start_tls(),
        }
    }

    /// Whether the stream should switch to TLS now.
    pub fn should_start_tls(&mut self) -> (r: bool)
        ensures
            r == (final(self).current_mode() == TlsMode::Enabled),
            final(self).identity() == old(self).identity(),
            exists|s: Signal| final(self).current_mode() == mode_after(old(self).current_mode(), s),
    {
        match self.mode() {
            TlsMode::Enabled => true,
            _ => false,
        }
    }
}

/// The session side of the switch.
pub struct TlsControll {
    sender: Sender<()>,
    mode: TlsMode,
}

impl TlsControll {
    pub closed spec fn mode_spec(&self) -> TlsMode {
        self.mode
    }

    pub fn new(sender: Sender<()>, mode: TlsMode) -> (r: Self)
        ensures
            r.mode() == mode,
    {
        Self { sender, mode }
    }

    #[verifier::when_used_as_spec(mode_spec)]
    pub fn mode(&self) -> (r: TlsMode)
        ensures
            r == self.mode_spec(),
    {
        self.mode
    }

    /// Signals the stream side to switch, unless TLS is disabled; a stream
    /// side that is gone is no error. Tells whether the signal was sent:
    /// exactly where TLS is not disabled.
    pub fn start_tls(&self) -> (r: bool)
        ensures
            r == (self.mode() != TlsMode::Disabled),
    {
        match self.mode {
            TlsMode::Disabled => false,
            _ => {
                let _delivered = send_signal(&self.sender);
                true
            },
        }
    }
}

} // verus!
