//! SSH channel configuration and state.
use vstd::prelude::*;
use crate::types::Dimensions;
use crate::error::ExpectError;

verus! {

/// SSH channel type.
#[derive(Debug, Clone, Copy, PartialEq, Eq, Structural)]
pub enum ChannelType {
    /// Session channel (for shell/exec).
    Session,
    /// Direct TCP/IP forwarding.
    DirectTcpIp,
    /// Forwarded TCP/IP.
    ForwardedTcpIp,
    /// X11 forwarding.
    X11,
}

/// SSH channel request type.
#[derive(Debug, Clone)]
pub enum ChannelRequest {
    /// Request a PTY.
    Pty { term: String, dimensions: Dimensions, modes: Vec<u8> },
    /// Request shell.
    Shell,
    /// Execute a command.
    Exec { command: String },
    /// Request subsystem.
    Subsystem { name: String },
    /// Window size change.
    WindowChange { dimensions: Dimensions },
    /// Send signal.
    Signal { signal: String },
    /// Request environment variable.
    Env { name: String, value: String },
}

/// SSH channel state.
#[derive(Debug, Clone, Copy, PartialEq, Eq, Structural)]
pub enum ChannelState {
    /// Opening.
    Opening,
    /// Open and ready.
    Open,
    /// End of file received.
    Eof,
    /// Closed.
    Closed,
}

/// SSH channel configuration (timeouts in milliseconds).
#[derive(Debug, Clone)]
pub struct ChannelConfig {
    /// Channel type.
    pub channel_type: ChannelType,
    /// Read timeout.
    pub read_timeout: u64,
    /// Write timeout.
    pub write_timeout: u64,
    /// Buffer size.
    pub buffer_size: usize,
    /// Request PTY.
    pub pty: bool,
    /// Terminal type.
    pub term: String,
    /// Terminal dimensions.
    pub dimensions: Dimensions,
}

impl ChannelConfig {
    /// Create new config: session channel, 30 s timeouts, 32 KiB buffer, PTY
    /// `xterm-256color` at 80x24.
    pub fn new() -> (r: Self)
        ensures
            r.channel_type == ChannelType::Session,
            r.read_timeout == 30_000,
            r.write_timeout == 30_000,
            r.buffer_size == 32768,
            r.pty,
            r.term@ == "xterm-256color"@,
            r.dimensions == (Dimensions { cols: 80, rows: 24 }),
    {
        ChannelConfig {
            channel_type: ChannelType::Session,
            read_timeout: 30_000,
            write_timeout: 30_000,
            buffer_size: 32768,
            pty: true,
            term: "xterm-256color".to_owned(),
            dimensions: Dimensions::default(),
        }
    }

    /// Set terminal type.
    pub fn term(self, term: String) -> (r: Self)
        ensures
            r == (ChannelConfig { term, ..self }),
    {
        ChannelConfig { term, ..self }
    }

    /// Set dimensions.
    pub fn dimensions(self, cols: u16, rows: u16) -> (r: Self)
        ensures
            r == (ChannelConfig { dimensions: Dimensions { cols, rows }, ..self }),
    {
        ChannelConfig { dimensions: Dimensions { cols, rows }, ..self }
    }

    /// Disable PTY.
    pub fn no_pty(self) -> (r: Self)
        ensures
            r == (ChannelConfig { pty: false, ..self }),
    {
        ChannelConfig { pty: false, ..self }
    }

    /// Set buffer size.
    pub fn buffer_size(self, size: usize) -> (r: Self)
        ensures
            r == (ChannelConfig { buffer_size: size, ..self }),
    {
        ChannelConfig { buffer_size: size, ..self }
    }
}

/// An SSH channel without a transport behind it: configuration, state and exit status.
#[derive(Debug)]
pub struct SshChannel {
    config: ChannelConfig,
    state: ChannelState,
    exit_status: Option<i32>,
}

impl SshChannel {
    /// The channel's state.
    pub closed spec fn spec_state(&self) -> ChannelState {
        self.state
    }

    /// The channel's exit status.
    pub closed spec fn spec_exit_status(&self) -> Option<i32> {
        self.exit_status
    }

    /// The channel's configuration.
    pub closed spec fn spec_config(&self) -> ChannelConfig {
        self.config
    }

    /// Create a new channel, in the opening state.
    pub fn new(config: ChannelConfig) -> (r: Self)
        ensures
            r.spec_config() == config,
            r.spec_state() == ChannelState::Opening,
            r.spec_exit_status() is None,
    {
        SshChannel { config, state: ChannelState::Opening, exit_status: None }
    }

    /// Get configuration.
    pub fn config(&self) -> (r: &ChannelConfig)
        ensures
            *r == self.spec_config(),
    {
        &self.config
    }

    /// Get current state.
    pub fn state(&self) -> (r: ChannelState)
        ensures
            r == self.spec_state(),
    {
        self.state
    }

    /// Check if open.
    pub fn is_open(&self) -> (r: bool)
        ensures
            r == (self.spec_state() == ChannelState::Open),
    {
        self.state == ChannelState::Open
    }

    /// Check if closed.
    pub fn is_closed(&self) -> (r: bool)
        ensures
            r == (self.spec_state() == ChannelState::Closed),
    {
        self.state == ChannelState::Closed
    }

    /// Get exit status.
    pub fn exit_status(&self) -> (r: Option<i32>)
        ensures
            r == self.spec_exit_status(),
    {
        self.exit_status
    }

    /// Open the channel (always succeeds without a transport).
    pub fn open(&mut self) -> (r: Result<(), ExpectError>)
        ensures
            r is Ok,
            final(self).spec_state() == ChannelState::Open,
            final(self).spec_exit_status() == old(self).spec_exit_status(),
            final(self).spec_config() == old(self).spec_config(),
    {
        self.state = ChannelState::Open;
        Ok(())
    }

    /// Close the channel.
    pub fn close(&mut self)
        ensures
            final(self).spec_state() == ChannelState::Closed,
            final(self).spec_exit_status() == old(self).spec_exit_status(),
            final(self).spec_config() == old(self).spec_config(),
    {
        self.state = ChannelState::Closed;
    }

    /// Set exit status.
    pub fn set_exit_status(&mut self, status: i32)
        ensures
            final(self).spec_exit_status() == Some(status),
            final(self).spec_state() == old(self).spec_state(),
            final(self).spec_config() == old(self).spec_config(),
    {
        self.exit_status = Some(status);
    }
}

/// A message received on an SSH channel, as far as reading needs it.
#[derive(Debug, Clone)]
pub enum ChannelMessage {
    /// Data on the standard stream.
    Data(Vec<u8>),
    /// Data on an extended stream (1 is standard error).
    ExtendedData(Vec<u8>, u32),
    /// The other side will send no more data.
    Eof,
    /// The channel was closed.
    Close,
    /// The remote command's exit status.
    ExitStatus(u32),
    /// Any other message.
    Other,
}

/// What polling the channel for its next message gave.
#[derive(Debug, Clone)]
pub enum ChannelPoll {
    /// A message arrived.
    Message(ChannelMessage),
    /// The channel has no more messages.
    Ended,
    /// Nothing yet.
    Pending,
}

/// The answer to a read.
#[derive(Debug, Clone)]
pub enum ReadPoll {
    /// These bytes were read (none at end of stream).
    Ready(Vec<u8>),
    /// Nothing can be read yet.
    Pending,
}

/// The reading side of an interactive SSH channel: what was received but not
/// yet read, the end of stream and the exit status. The transport polls the
/// channel and hands the messages to it.
#[derive(Debug)]
pub struct SshChannelStream {
    config: ChannelConfig,
    state: ChannelState,
    read_buffer: Vec<u8>,
    exit_status: Option<u32>,
    eof_received: bool,
}

/// The payload of a message that reading delivers: standard data and
/// standard error.
pub open spec fn readable_payload(m: ChannelMessage) -> Option<Seq<u8>> {
    match m {
        ChannelMessage::Data(d) => Some(d@),
        ChannelMessage::ExtendedData(d, ext) => if ext == 1 { Some(d@) } else { None },
        _ => None,
    }
}

/// The smaller of two integers.
pub open spec fn min_int(a: int, b: int) -> int {
    if a <= b { a } else { b }
}

impl SshChannelStream {
    /// The configuration.
    pub closed spec fn spec_config(&self) -> ChannelConfig {
        self.config
    }

    /// The state.
    pub closed spec fn spec_state(&self) -> ChannelState {
        self.state
    }

    /// The bytes received but not yet read, oldest first.
    pub closed spec fn spec_buffer(&self) -> Seq<u8> {
        self.read_buffer@
    }

    /// The exit status, once received.
    pub closed spec fn spec_exit_status(&self) -> Option<u32> {
        self.exit_status
    }

    /// Whether the end of stream was received.
    pub closed spec fn spec_eof(&self) -> bool {
        self.eof_received
    }

    /// A stream on a freshly opened channel.
    pub fn new(config: ChannelConfig) -> (r: Self)
        ensures
            r.spec_config() == config,
            r.spec_state() == ChannelState::Open,
            r.spec_buffer().len() == 0,
            r.spec_exit_status() is None,
            !r.spec_eof(),
    {
        SshChannelStream {
            config,
            state: ChannelState::Open,
            read_buffer: Vec::new(),
            exit_status: None,
            eof_received: false,
        }
    }

    /// The configuration.
    pub fn config(&self) -> (r: &ChannelConfig)
        ensures
            *r == self.spec_config(),
    {
        &self.config
    }

    /// The state.
    pub fn state(&self) -> (r: ChannelState)
        ensures
            r == self.spec_state(),
    {
        self.state
    }

    /// Whether the channel is open.
    pub fn is_open(&self) -> (r: bool)
        ensures
            r == (self.spec_state() == ChannelState::Open),
    {
        self.state == ChannelState::Open
    }

    /// Whether the end of stream was received.
    pub fn is_eof(&self) -> (r: bool)
        ensures
            r == self.spec_eof(),
    {
        self.eof_received
    }

    /// The exit status, once received.
    pub fn exit_status(&self) -> (r: Option<u32>)
        ensures
            r == self.spec_exit_status(),
    {
        self.exit_status
    }

    /// Whether received bytes wait to be read.
    pub fn has_data(&self) -> (r: bool)
        ensures
            r == (self.spec_buffer().len() > 0),
    {
        self.read_buffer.len() > 0
    }

    /// How many received bytes wait to be read.
    pub fn available(&self) -> (r: usize)
        ensures
            r == self.spec_buffer().len(),
    {
        self.read_buffer.len()
    }

    /// Append bytes to the buffer.
    fn buffer_extend(&mut self, data: &[u8], from: usize)
        requires
            from <= data@.len(),
        ensures
            final(self).read_buffer@ == old(self).read_buffer@ + data@.subrange(from as int, data@.len() as int),
            final(self).config == old(self).config,
            final(self).state == old(self).state,
            final(self).exit_status == old(self).exit_status,
            final(self).eof_received == old(self).eof_received,
    {
        let mut k = from;
        while k < data.len()
            invariant
                from <= k <= data@.len(),
                self.read_buffer@ == old(self).read_buffer@ + data@.subrange(from as int, k as int),
                self.config == old(self).config,
                self.state == old(self).state,
                self.exit_status == old(self).exit_status,
                self.eof_received == old(self).eof_received,
            decreases data.len() - k,
        {
            self.read_buffer.push(data[k]);
            k = k + 1;
            assert(self.read_buffer@ =~= old(self).read_buffer@ + data@.subrange(from as int, k as int));
        }
    }

    /// Take up to `capacity` bytes from the front of the buffer.
    pub fn read_buffered(&mut self, capacity: usize) -> (r: Vec<u8>)
        ensures
            r@ == old(self).spec_buffer().take(min_int(capacity as int, old(self).spec_buffer().len() as int)),
            final(self).spec_buffer() == old(self).spec_buffer().skip(min_int(capacity as int, old(self).spec_buffer().len() as int)),
            final(self).spec_config() == old(self).spec_config(),
            final(self).spec_state() == old(self).spec_state(),
            final(self).spec_exit_status() == old(self).spec_exit_status(),
            final(self).spec_eof() == old(self).spec_eof(),
    {
        let n = if capacity < self.read_buffer.len() { capacity } else { self.read_buffer.len() };
        let mut out: Vec<u8> = Vec::new();
        let mut rest: Vec<u8> = Vec::new();
        let mut k: usize = 0;
        while k < self.read_buffer.len()
            invariant
                n <= self.read_buffer@.len(),
                self.read_buffer == old(self).read_buffer,
                k <= self.read_buffer@.len(),
                out@ == self.read_buffer@.take(min_int(k as int, n as int)),
                rest@ == (if k <= n { Seq::<u8>::empty() } else { self.read_buffer@.subrange(n as int, k as int) }),
            decreases self.read_buffer.len() - k,
        {
            if k < n {
                out.push(self.read_buffer[k]);
            } else {
                rest.push(self.read_buffer[k]);
            }
            k = k + 1;
            assert(out@ =~= self.read_buffer@.take(min_int(k as int, n as int)));
            assert(rest@ =~= (if k <= n { Seq::<u8>::empty() } else { self.read_buffer@.subrange(n as int, k as int) }));
        }
        assert(rest@ =~= self.read_buffer@.skip(n as int));
        self.read_buffer = rest;
        out
    }

    /// Record a message, as waiting for the next message does: readable data
    /// is buffered, the exit status kept, the end of stream and closing noted.
    pub fn wait(&mut self, msg: ChannelMessage) -> (r: ChannelMessage)
        ensures
            r == msg,
            final(self).spec_config() == old(self).spec_config(),
            final(self).spec_buffer() == match readable_payload(msg) {
                Some(d) => old(self).spec_buffer() + d,
                None => old(self).spec_buffer(),
            },
            final(self).spec_exit_status() == match msg {
                ChannelMessage::ExitStatus(st) => Some(st),
                _ => old(self).spec_exit_status(),
            },
            final(self).spec_eof() == (old(self).spec_eof() || msg is Eof),
            final(self).spec_state() == match msg {
                ChannelMessage::Eof => ChannelState::Eof,
                ChannelMessage::Close => ChannelState::Closed,
                _ => old(self).spec_state(),
            },
    {
        match &msg {
            ChannelMessage::Data(d) => {
                self.buffer_extend(d.as_slice(), 0);
                assert(d@.subrange(0, d@.len() as int) =~= d@);
            },
            ChannelMessage::ExtendedData(d, ext) => {
                if *ext == 1 {
                    self.buffer_extend(d.as_slice(), 0);
                    assert(d@.subrange(0, d@.len() as int) =~= d@);
                }
            },
            ChannelMessage::ExitStatus(st) => {
                self.exit_status = Some(*st);
            },
            ChannelMessage::Eof => {
                self.eof_received = true;
                self.state = ChannelState::Eof;
            },
            ChannelMessage::Close => {
                self.state = ChannelState::Closed;
            },
            ChannelMessage::Other => {},
        }
        msg
    }

    /// A read that needs no message: buffered bytes (up to `capacity`), or
    /// end of stream (no bytes) once the end was received or the channel
    /// closed. `None` when the channel must be polled (see
    /// [`SshChannelStream::poll_read`]).
    pub fn read_ready(&mut self, capacity: usize) -> (r: Option<Vec<u8>>)
        ensures
            final(self).spec_config() == old(self).spec_config(),
            final(self).spec_state() == old(self).spec_state(),
            final(self).spec_exit_status() == old(self).spec_exit_status(),
            final(self).spec_eof() == old(self).spec_eof(),
            old(self).spec_buffer().len() > 0 ==> r is Some
                && r->0@ == old(self).spec_buffer().take(min_int(capacity as int, old(self).spec_buffer().len() as int))
                && final(self).spec_buffer() == old(self).spec_buffer().skip(min_int(capacity as int, old(self).spec_buffer().len() as int)),
            old(self).spec_buffer().len() == 0 && (old(self).spec_eof() || old(self).spec_state() == ChannelState::Closed)
                ==> r is Some && r->0@.len() == 0 && final(self).spec_buffer() == old(self).spec_buffer(),
            old(self).spec_buffer().len() == 0 && !old(self).spec_eof() && old(self).spec_state() != ChannelState::Closed
                ==> r is None && final(self).spec_buffer() == old(self).spec_buffer(),
    {
        if self.read_buffer.len() > 0 {
            Some(self.read_buffered(capacity))
        } else if self.eof_received || self.state == ChannelState::Closed {
            Some(Vec::new())
        } else {
            None
        }
    }

    /// A read that follows polling the channel: readable data is delivered
    /// up to `capacity` bytes and the rest buffered; end of stream and closing
    /// deliver no bytes and are noted; an exit status is kept and, like other
    /// messages and a pending poll, gives nothing yet.
    pub fn poll_read(&mut self, capacity: usize, polled: ChannelPoll) -> (r: ReadPoll)
        ensures
            final(self).spec_config() == old(self).spec_config(),
            match polled {
                ChannelPoll::Message(m) => match readable_payload(m) {
                    Some(d) => r matches ReadPoll::Ready(out)
                        && out@ == d.take(min_int(capacity as int, d.len() as int))
                        && final(self).spec_buffer() == old(self).spec_buffer() + d.skip(min_int(capacity as int, d.len() as int))
                        && final(self).spec_state() == old(self).spec_state()
                        && final(self).spec_eof() == old(self).spec_eof()
                        && final(self).spec_exit_status() == old(self).spec_exit_status(),
                    None => match m {
                        ChannelMessage::Eof => r matches ReadPoll::Ready(out) && out@.len() == 0
                            && final(self).spec_eof() && final(self).spec_state() == ChannelState::Eof
                            && final(self).spec_buffer() == old(self).spec_buffer()
                            && final(self).spec_exit_status() == old(self).spec_exit_status(),
                        ChannelMessage::Close => r matches ReadPoll::Ready(out) && out@.len() == 0
                            && final(self).spec_state() == ChannelState::Closed
                            && final(self).spec_eof() == old(self).spec_eof()
                            && final(self).spec_buffer() == old(self).spec_buffer()
                            && final(self).spec_exit_status() == old(self).spec_exit_status(),
                        ChannelMessage::ExitStatus(st) => r is Pending
                            && final(self).spec_exit_status() == Some(st)
                            && final(self).spec_state() == old(self).spec_state()
                            && final(self).spec_eof() == old(self).spec_eof()
                            && final(self).spec_buffer() == old(self).spec_buffer(),
                        ChannelMessage::ExtendedData(_, _) => r matches ReadPoll::Ready(out) && out@.len() == 0
                            && final(self).spec_state() == old(self).spec_state()
                            && final(self).spec_eof() == old(self).spec_eof()
                            && final(self).spec_exit_status() == old(self).spec_exit_status()
                            && final(self).spec_buffer() == old(self).spec_buffer(),
                        _ => r is Pending
                            && final(self).spec_state() == old(self).spec_state()
                            && final(self).spec_eof() == old(self).spec_eof()
                            && final(self).spec_exit_status() == old(self).spec_exit_status()
                            && final(self).spec_buffer() == old(self).spec_buffer(),
                    },
                },
                ChannelPoll::Ended => r matches ReadPoll::Ready(out) && out@.len() == 0
                    && final(self).spec_state() == ChannelState::Closed
                    && final(self).spec_eof() == old(self).spec_eof()
                    && final(self).spec_exit_status() == old(self).spec_exit_status()
                    && final(self).spec_buffer() == old(self).spec_buffer(),
                ChannelPoll::Pending => r is Pending
                    && final(self).spec_state() == old(self).spec_state()
                    && final(self).spec_eof() == old(self).spec_eof()
                    && final(self).spec_exit_status() == old(self).spec_exit_status()
                    && final(self).spec_buffer() == old(self).spec_buffer(),
            },
    {
        match polled {
            ChannelPoll::Message(m) => match m {
                ChannelMessage::Data(d) => ReadPoll::Ready(self.deliver(d.as_slice(), capacity)),
                ChannelMessage::ExtendedData(d, ext) => {
                    if ext == 1 {
                        ReadPoll::Ready(self.deliver(d.as_slice(), capacity))
                    } else {
                        ReadPoll::Ready(Vec::new())
                    }
                },
                ChannelMessage::Eof => {
                    self.eof_received = true;
                    self.state = ChannelState::Eof;
                    ReadPoll::Ready(Vec::new())
                },
                ChannelMessage::Close => {
                    self.state = ChannelState::Closed;
                    ReadPoll::Ready(Vec::new())
                },
                ChannelMessage::ExitStatus(st) => {
                    self.exit_status = Some(st);
                    ReadPoll::Pending
                },
                ChannelMessage::Other => ReadPoll::Pending,
            },
            ChannelPoll::Ended => {
                self.state = ChannelState::Closed;
                ReadPoll::Ready(Vec::new())
            },
            ChannelPoll::Pending => ReadPoll::Pending,
        }
    }

    /// Deliver up to `capacity` bytes of `data` and buffer the rest.
    fn deliver(&mut self, data: &[u8], capacity: usize) -> (r: Vec<u8>)
        ensures
            r@ == data@.take(min_int(capacity as int, data@.len() as int)),
            final(self).read_buffer@ == old(self).read_buffer@ + data@.skip(min_int(capacity as int, data@.len() as int)),
            final(self).config == old(self).config,
            final(self).state == old(self).state,
            final(self).exit_status == old(self).exit_status,
            final(self).eof_received == old(self).eof_received,
    {
        let n = if capacity < data.len() { capacity } else { data.len() };
        let mut out: Vec<u8> = Vec::new();
        let mut k: usize = 0;
        while k < n
            invariant
                n <= data@.len(),
                k <= n,
                out@ == data@.take(k as int),
            decreases n - k,
        {
            out.push(data[k]);
            k = k + 1;
            assert(out@ =~= data@.take(k as int));
        }
        self.buffer_extend(data, n);
        assert(data@.subrange(n as int, data@.len() as int) =~= data@.skip(n as int));
        out
    }

    /// Whether writing may proceed: not on a closed channel.
    pub fn poll_write_allowed(&self) -> (r: bool)
        ensures
            r == (self.spec_state() != ChannelState::Closed),
    {
        self.state != ChannelState::Closed
    }

    /// Note that the end of stream was sent.
    pub fn shutdown_sent(&mut self)
        ensures
            final(self).spec_state() == ChannelState::Eof,
            final(self).spec_buffer() == old(self).spec_buffer(),
            final(self).spec_eof() == old(self).spec_eof(),
            final(self).spec_exit_status() == old(self).spec_exit_status(),
            final(self).spec_config() == old(self).spec_config(),
    {
        self.state = ChannelState::Eof;
    }
}

} // verus!
