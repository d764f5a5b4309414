//! Settings for a manager, fixed before it starts.
use vstd::prelude::*;
use std::time::Duration;

verus! {

/// Receive buffer size used unless configured otherwise.
pub const DEFAULT_BUFFER_LEN: usize = 100;

/// Address the manager listens on unless configured otherwise.
pub open spec fn default_socket() -> Seq<char> {
    "0.0.0.0:39507"@
}

/// Collects the settings of a manager, starting from documented defaults.
///
/// A read timeout only makes sense for blocking reads: setting one switches
/// blocking on, and switching to non-blocking clears it.
pub struct Builder {
    buffer_len: usize,
    socket: String,
    non_blocking: bool,
    read_timeout: Option<Duration>,
    use_ids: bool,
}

/// The settings that a `Builder` holds.
pub ghost struct Settings {
    pub buffer_len: usize,
    pub socket: Seq<char>,
    pub non_blocking: bool,
    pub read_timeout: Option<Duration>,
    pub use_ids: bool,
}

impl View for Builder {
    type V = Settings;

    closed spec fn view(&self) -> Settings {
        Settings {
            buffer_len: self.buffer_len,
            socket: self.socket@,
            non_blocking: self.non_blocking,
            read_timeout: self.read_timeout,
            use_ids: self.use_ids,
        }
    }
}

impl Builder {
    /// A timeout is only ever held together with blocking reads.
    pub open spec fn wf(&self) -> bool {
        self@.read_timeout is Some ==> !self@.non_blocking
    }

    /// The defaults: a 100-byte buffer, listening on `0.0.0.0:39507`,
    /// non-blocking, no timeout, ids on the wire.
    pub fn init() -> (r: Builder)
        ensures
            r.wf(),
            r@ == (Settings {
                buffer_len: DEFAULT_BUFFER_LEN,
                socket: default_socket(),
                non_blocking: true,
                read_timeout: None,
                use_ids: true,
            }),
    {
        proof {
            reveal_strlit("0.0.0.0:39507");
        }
        let buffer_len: usize = DEFAULT_BUFFER_LEN;
        let socket = "0.0.0.0:39507".to_owned();
        let read_timeout = None;
        let non_blocking = true;
        let use_ids = true;
        Builder { buffer_len, socket, read_timeout, non_blocking, use_ids }
    }

    /// Sets the size in bytes of the receive buffer; longer datagrams are
    /// truncated to it.
    pub fn buffer_len(self, len: usize) -> (r: Builder)
        requires
            self.wf(),
        ensures
            r.wf(),
            r@ == (Settings { buffer_len: len, ..self@ }),
    {
        Builder { buffer_len: len, ..self }
    }

    /// Sets whether datagrams carry a type-id header. Without one, every
    /// message lands in one shared queue, whatever its type.
    pub fn use_ids(self, use_ids: bool) -> (r: Builder)
        requires
            self.wf(),
        ensures
            r.wf(),
            r@ == (Settings { use_ids, ..self@ }),
    {
        Builder { use_ids, ..self }
    }

    /// Sets how long a blocking receive waits; a timeout also switches
    /// blocking on.
    pub fn read_timeout(self, read_timeout: Option<Duration>) -> (r: Builder)
        requires
            self.wf(),
        ensures
            r.wf(),
            r@ == (Settings {
                read_timeout,
                non_blocking: if read_timeout is Some {
                    false
                } else {
                    self@.non_blocking
                },
                ..self@
            }),
    {
        let mut b = self;
        if read_timeout.is_some() {
            b.non_blocking = false;
        }
        b.read_timeout = read_timeout;
        b
    }

    /// Sets whether receives return at once when nothing has arrived;
    /// switching to non-blocking clears the timeout.
    pub fn non_blocking(self, non_blocking: bool) -> (r: Builder)
        requires
            self.wf(),
        ensures
            r.wf(),
            r@ == (Settings {
                non_blocking,
                read_timeout: if non_blocking {
                    None
                } else {
                    self@.read_timeout
                },
                ..self@
            }),
    {
        let mut b = self;
        if non_blocking {
            b.read_timeout = None;
        }
        b.non_blocking = non_blocking;
        b
    }

    /// Sets the address to listen on.
    pub fn socket(self, socket: String) -> (r: Builder)
        requires
            self.wf(),
        ensures
            r.wf(),
            r@ == (Settings { socket: socket@, ..self@ }),
    {
        Builder { socket, ..self }
    }

    /// The receive buffer size.
    pub fn get_buffer_len(&self) -> (r: usize)
        ensures
            r == self@.buffer_len,
    {
        self.buffer_len
    }

    /// The address to listen on.
    pub fn get_socket(&self) -> (r: &String)
        ensures
            r@ == self@.socket,
    {
        &self.socket
    }

    /// Whether receives return at once when nothing has arrived.
    pub fn is_non_blocking(&self) -> (r: bool)
        ensures
            r == self@.non_blocking,
    {
        self.non_blocking
    }

    /// How long a blocking receive waits, if bounded.
    pub fn get_read_timeout(&self) -> (r: Option<Duration>)
        ensures
            r == self@.read_timeout,
    {
        self.read_timeout
    }

    /// Whether datagrams carry a type-id header.
    pub fn uses_ids(&self) -> (r: bool)
        ensures
            r == self@.use_ids,
    {
        self.use_ids
    }
}

} // verus!
