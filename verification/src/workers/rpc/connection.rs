//! Reading one JSON-RPC request off a connection: bytes are gathered until
//! the first complete JSON value has arrived, the peer closes, a read times
//! out or the request grows too large.

use vstd::prelude::*;

verus! {

/// Largest request accepted, in bytes.
pub const MAX_REQUEST_SIZE: usize = 1048576;

/// Most bytes one read hands over.
pub const READ_BUFFER_SIZE: usize = 4096;

/// How long the first read waits, in milliseconds.
pub const INITIAL_TIMEOUT_MS: u64 = 3000;

/// How long each later read waits, in milliseconds.
pub const SUBSEQUENT_TIMEOUT_MS: u64 = 50;

/// Where a scan of JSON text stands: the nesting depth of brackets and
/// braces, whether it is inside a string, whether the next byte is escaped,
/// and whether a bracket or brace has opened yet.
pub open spec fn scan_step(s: (int, bool, bool, bool), b: u8) -> (int, bool, bool, bool) {
    let (depth, in_string, escape, started) = s;
    if escape {
        (depth, in_string, false, started)
    } else if b == 92 && in_string {
        (depth, in_string, true, started)
    } else if b == 34 {
        (depth, !in_string, escape, started)
    } else if in_string {
        s
    } else if b == 123 || b == 91 {
        (depth + 1, in_string, escape, true)
    } else if b == 125 || b == 93 {
        (depth - 1, in_string, escape, started)
    } else {
        s
    }
}

/// The scan of `bytes` from the start.
pub open spec fn scan(bytes: Seq<u8>) -> (int, bool, bool, bool)
    decreases bytes.len(),
{
    if bytes.len() == 0 {
        (0, false, false, false)
    } else {
        scan_step(scan(bytes.drop_last()), bytes.last())
    }
}

/// Whether `bytes` hold a whole JSON value: a bracket or brace opened and
/// every one opened has closed.
pub open spec fn json_complete(bytes: Seq<u8>) -> bool {
    scan(bytes).3 && scan(bytes).0 == 0
}

proof fn lemma_depth_bound(bytes: Seq<u8>)
    ensures
        -bytes.len() <= scan(bytes).0 <= bytes.len(),
    decreases bytes.len(),
{
    if bytes.len() > 0 {
        lemma_depth_bound(bytes.drop_last());
    }
}

/// Follows the JSON structure of the bytes read so far.
pub struct JsonFrameScanner {
    brace_depth: i32,
    in_string: bool,
    escape: bool,
    json_started: bool,
    seen: Ghost<Seq<u8>>,
}

impl JsonFrameScanner {
    #[verifier::type_invariant]
    spec fn wf(self) -> bool {
        &&& self.seen@.len() <= i32::MAX
        &&& scan(self.seen@) == (
            self.brace_depth as int,
            self.in_string,
            self.escape,
            self.json_started,
        )
    }

    /// The bytes scanned so far.
    pub closed spec fn scanned(self) -> Seq<u8> {
        self.seen@
    }

    pub fn new() -> (s: Self)
        ensures
            s.scanned() == Seq::<u8>::empty(),
    {
        JsonFrameScanner {
            brace_depth: 0,
            in_string: false,
            escape: false,
            json_started: false,
            seen: Ghost(Seq::empty()),
        }
    }

    /// Scans `chunk`, the bytes that follow those scanned so far.
    pub fn feed(&mut self, chunk: &[u8])
        requires
            old(self).scanned().len() + chunk@.len() <= i32::MAX,
        ensures
            final(self).scanned() == old(self).scanned() + chunk@,
    {
        proof {
            use_type_invariant(&*self);
        }
        let ghost start = self.seen@;
        let mut depth = self.brace_depth;
        let mut in_string = self.in_string;
        let mut escape = self.escape;
        let mut started = self.json_started;
        let mut i: usize = 0;
        while i < chunk.len()
            invariant
                i <= chunk@.len(),
                start.len() + chunk@.len() <= i32::MAX,
                scan(start + chunk@.take(i as int)) == (depth as int, in_string, escape, started),
            decreases chunk.len() - i,
        {
            let b = chunk[i];
            proof {
                assert((start + chunk@.take(i + 1)).drop_last() =~= start + chunk@.take(i as int));
                lemma_depth_bound(start + chunk@.take(i as int));
            }
            if escape {
                escape = false;
            } else if b == 92 && in_string {
                escape = true;
            } else if b == 34 {
                in_string = !in_string;
            } else if in_string {
            } else if b == 123 || b == 91 {
                depth = depth + 1;
                started = true;
            } else if b == 125 || b == 93 {
                depth = depth - 1;
            }
            i = i + 1;
        }
        assert(chunk@.take(i as int) =~= chunk@);
        *self = JsonFrameScanner {
            brace_depth: depth,
            in_string,
            escape,
            json_started: started,
            seen: Ghost(start + chunk@),
        };
    }

    /// Whether the bytes scanned hold a whole JSON value.
    pub fn is_complete(&self) -> (b: bool)
        ensures
            b == json_complete(self.scanned()),
    {
        proof {
            use_type_invariant(self);
        }
        self.json_started && self.brace_depth == 0
    }
}

/// What to do after a chunk arrived.
#[derive(Debug, Clone, Copy, PartialEq, Eq, Structural)]
pub enum ReadStep {
    /// Read on.
    Continue,
    /// A whole JSON value has arrived.
    Complete,
    /// The request is larger than [`MAX_REQUEST_SIZE`]; the connection fails.
    TooLarge,
}

/// What to do once reading has stopped.
#[derive(Debug, Clone, PartialEq, Eq)]
pub enum EndStep {
    /// The peer sent nothing: the connection ends with no answer.
    Nothing,
    /// Hand these bytes to the RPC server and write back its answer.
    Answer(Vec<u8>),
}

/// The bytes of a request read so far, and how they scan.
pub struct RequestReader {
    payload: Vec<u8>,
    scanner: JsonFrameScanner,
    first_read: bool,
}

impl RequestReader {
    #[verifier::type_invariant]
    spec fn wf(self) -> bool {
        &&& self.payload@.len() <= MAX_REQUEST_SIZE + READ_BUFFER_SIZE
        &&& self.payload@.len() <= MAX_REQUEST_SIZE ==> self.scanner.scanned() == self.payload@
    }

    /// The bytes read so far.
    pub closed spec fn bytes(self) -> Seq<u8> {
        self.payload@
    }

    /// Whether the next read is the first.
    pub closed spec fn at_first_read(self) -> bool {
        self.first_read
    }

    pub fn new() -> (r: Self)
        ensures
            r.bytes() == Seq::<u8>::empty(),
            r.at_first_read(),
    {
        RequestReader { payload: Vec::new(), scanner: JsonFrameScanner::new(), first_read: true }
    }

    /// How long the next read may wait: longer for the first one.
    pub fn next_timeout_ms(&mut self) -> (t: u64)
        ensures
            t == if old(self).at_first_read() {
                INITIAL_TIMEOUT_MS
            } else {
                SUBSEQUENT_TIMEOUT_MS
            },
            !final(self).at_first_read(),
            final(self).bytes() == old(self).bytes(),
    {
        proof {
            use_type_invariant(&*self);
        }
        let t = if self.first_read {
            INITIAL_TIMEOUT_MS
        } else {
            SUBSEQUENT_TIMEOUT_MS
        };
        self.first_read = false;
        t
    }

    /// Takes the bytes of one read: too large once more than
    /// [`MAX_REQUEST_SIZE`] bytes have arrived, complete once they hold a
    /// whole JSON value.
    pub fn on_data(&mut self, chunk: &[u8]) -> (step: ReadStep)
        requires
            old(self).bytes().len() <= MAX_REQUEST_SIZE,
            chunk@.len() <= READ_BUFFER_SIZE,
        ensures
            final(self).bytes() == old(self).bytes() + chunk@,
            final(self).at_first_read() == old(self).at_first_read(),
            step == if final(self).bytes().len() > MAX_REQUEST_SIZE {
                ReadStep::TooLarge
            } else if json_complete(final(self).bytes()) {
                ReadStep::Complete
            } else {
                ReadStep::Continue
            },
    {
        proof {
            use_type_invariant(&*self);
        }
        let mut this = RequestReader::new();
        std::mem::swap(&mut this, self);
        let RequestReader { mut payload, mut scanner, first_read } = this;
        let ghost start = payload@;
        let mut i: usize = 0;
        while i < chunk.len()
            invariant
                i <= chunk@.len(),
                payload@ == start + chunk@.take(i as int),
            decreases chunk.len() - i,
        {
            payload.push(chunk[i]);
            assert(payload@ =~= start + chunk@.take(i + 1));
            i = i + 1;
        }
        assert(chunk@.take(i as int) =~= chunk@);
        if payload.len() > MAX_REQUEST_SIZE {
            *self = RequestReader { payload, scanner, first_read };
            return ReadStep::TooLarge;
        }
        scanner.feed(chunk);
        let complete = scanner.is_complete();
        *self = RequestReader { payload, scanner, first_read };
        if complete {
            ReadStep::Complete
        } else {
            ReadStep::Continue
        }
    }

    /// What follows once reading stops (the peer closed, a read timed out,
    /// or a whole JSON value arrived): nothing for a connection that sent
    /// nothing, otherwise the bytes read are answered.
    pub fn on_end(&self) -> (e: EndStep)
        ensures
            match e {
                EndStep::Nothing => self.bytes().len() == 0,
                EndStep::Answer(p) => self.bytes().len() > 0 && p@ == self.bytes(),
            },
    {
        if self.payload.len() == 0 {
            EndStep::Nothing
        } else {
            EndStep::Answer(self.payload.clone())
        }
    }

    /// The bytes read so far.
    pub fn payload(&self) -> (p: &Vec<u8>)
        ensures
            p@ == self.bytes(),
    {
        &self.payload
    }
}

/// Feeding bytes in pieces scans them as one: the scan of a request does not
/// depend on how its bytes were split into reads.
pub proof fn lemma_scan_concat(a: Seq<u8>, b: Seq<u8>)
    ensures
        scan(a + b) == scan_from(scan(a), b),
    decreases b.len(),
{
    if b.len() > 0 {
        lemma_scan_concat(a, b.drop_last());
        assert((a + b).drop_last() =~= a + b.drop_last());
    } else {
        assert(a + b =~= a);
    }
}

/// The scan of `bytes` from state `s`.
pub open spec fn scan_from(s: (int, bool, bool, bool), bytes: Seq<u8>) -> (int, bool, bool, bool)
    decreases bytes.len(),
{
    if bytes.len() == 0 {
        s
    } else {
        scan_step(scan_from(s, bytes.drop_last()), bytes.last())
    }
}

} // verus!
