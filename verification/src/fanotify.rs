//! The kernel's event records: their layout, and the walk over a buffer of
//! them.

use vstd::prelude::*;

verus! {

/// Bytes in the fixed header of an event record.
pub const EVENT_METADATA_LEN: usize = 24;

/// Notification class of the channel: events are reported, nothing is asked.
pub const FAN_CLASS_NOTIF: u32 = 0x0000_0000;

/// The channel's descriptor is closed when the process executes a program.
pub const FAN_CLOEXEC: u32 = 0x0000_0001;

/// Reading from the channel does not wait for events.
pub const FAN_NONBLOCK: u32 = 0x0000_0002;

/// The events of the mask are added to the mark.
pub const FAN_MARK_ADD: u32 = 0x0000_0001;

/// Events on the entries of a marked directory are reported too.
pub const FAN_EVENT_ON_CHILD: u32 = 0x0800_0000;

/// Event class: the attributes of an object changed.
pub const FAN_ATTRIB: u64 = 0x0000_0004;

/// Event class: an object was moved into a directory.
pub const FAN_MOVED_TO: u64 = 0x0000_0080;

/// Event class: an object was created in a directory.
pub const FAN_CREATE: u64 = 0x0000_0100;

/// Descriptors that come with events are open for reading only.
pub const O_RDONLY: u32 = 0;

/// The error number with which a read from a channel that does not wait says
/// that no event is pending.
pub const EAGAIN: i32 = 11;

/// The order in which a machine lays out the bytes of a number.
#[derive(Clone, Copy, Debug, PartialEq, Eq, Structural)]
pub enum ByteOrder {
    /// Least significant byte first.
    LittleEndian,
    /// Most significant byte first.
    BigEndian,
}

/// The fixed header of one event record, as the kernel writes it.
#[derive(Clone, Copy, Debug, PartialEq, Eq, Structural)]
pub struct FanotifyEventMetadata {
    /// Length of the whole record in bytes, header and trailing data.
    pub event_len: u32,
    /// Version of the record layout.
    pub vers: u8,
    /// Not used.
    pub reserved: u8,
    /// Length of this header.
    pub metadata_len: u16,
    /// What happened to the object, one bit for each class of event.
    pub mask: u64,
    /// An open descriptor for the object the event is about.
    pub fd: i32,
    /// The process that caused the event.
    pub pid: i32,
}

/// The unsigned number that the `width` bytes of `buf` from `at` on stand for.
pub open spec fn unsigned_at(buf: Seq<u8>, at: int, width: nat, order: ByteOrder) -> nat
    decreases width,
{
    if width == 0 {
        0
    } else {
        match order {
            ByteOrder::LittleEndian => buf[at] as nat + 256 * unsigned_at(
                buf,
                at + 1,
                (width - 1) as nat,
                order,
            ),
            ByteOrder::BigEndian => 256 * unsigned_at(buf, at, (width - 1) as nat, order) + buf[at
                + width - 1] as nat,
        }
    }
}

/// The signed 32-bit number that an unsigned one stands for in two's
/// complement.
pub open spec fn as_signed_32(v: nat) -> int {
    if v < 0x8000_0000 {
        v as int
    } else {
        v - 0x1_0000_0000
    }
}

/// The header that the 24 bytes of `buf` from `at` on hold.
pub open spec fn header_at(buf: Seq<u8>, at: int, order: ByteOrder) -> FanotifyEventMetadata {
    FanotifyEventMetadata {
        event_len: unsigned_at(buf, at, 4, order) as u32,
        vers: buf[at + 4],
        reserved: buf[at + 5],
        metadata_len: unsigned_at(buf, at + 6, 2, order) as u16,
        mask: unsigned_at(buf, at + 8, 8, order) as u64,
        fd: as_signed_32(unsigned_at(buf, at + 16, 4, order)) as i32,
        pid: as_signed_32(unsigned_at(buf, at + 20, 4, order)) as i32,
    }
}

/// `width` bytes stand for a number below 256 to the power of `width`.
proof fn lemma_unsigned_at_bound(buf: Seq<u8>, at: int, width: nat, order: ByteOrder)
    requires
        width <= 8,
    ensures
        width == 0 ==> unsigned_at(buf, at, width, order) == 0,
        width == 1 ==> unsigned_at(buf, at, width, order) < 0x100,
        width == 2 ==> unsigned_at(buf, at, width, order) < 0x1_0000,
        width == 3 ==> unsigned_at(buf, at, width, order) < 0x100_0000,
        width == 4 ==> unsigned_at(buf, at, width, order) < 0x1_0000_0000,
        width == 5 ==> unsigned_at(buf, at, width, order) < 0x100_0000_0000,
        width == 6 ==> unsigned_at(buf, at, width, order) < 0x1_0000_0000_0000,
        width == 7 ==> unsigned_at(buf, at, width, order) < 0x100_0000_0000_0000,
        width == 8 ==> unsigned_at(buf, at, width, order) < 0x1_0000_0000_0000_0000,
    decreases width,
{
    if width > 0 {
        match order {
            ByteOrder::LittleEndian => lemma_unsigned_at_bound(
                buf,
                at + 1,
                (width - 1) as nat,
                order,
            ),
            ByteOrder::BigEndian => lemma_unsigned_at_bound(buf, at, (width - 1) as nat, order),
        }
    }
}

/// Reads an unsigned number of up to eight bytes.
fn read_unsigned(buf: &[u8], at: usize, width: usize, order: ByteOrder) -> (r: u64)
    requires
        width <= 8,
        at + width <= buf.len(),
    ensures
        r == unsigned_at(buf@, at as int, width as nat, order),
{
    let mut value: u64 = 0;
    let mut k: usize = 0;
    while k < width
        invariant
            k <= width <= 8,
            at + width <= buf.len(),
            match order {
                ByteOrder::LittleEndian => value == unsigned_at(
                    buf@,
                    at + width - k,
                    k as nat,
                    order,
                ),
                ByteOrder::BigEndian => value == unsigned_at(buf@, at as int, k as nat, order),
            },
        decreases width - k,
    {
        proof {
            lemma_unsigned_at_bound(buf@, at + width - k, k as nat, order);
            lemma_unsigned_at_bound(buf@, at as int, k as nat, order);
        }
        let byte: u8 = match order {
            ByteOrder::LittleEndian => buf[at + width - 1 - k],
            ByteOrder::BigEndian => buf[at + k],
        };
        value = value * 256 + byte as u64;
        k = k + 1;
    }
    value
}

/// Reads a signed 32-bit number.
fn read_signed_32(buf: &[u8], at: usize, order: ByteOrder) -> (r: i32)
    requires
        at + 4 <= buf.len(),
    ensures
        r == as_signed_32(unsigned_at(buf@, at as int, 4, order)),
{
    proof {
        lemma_unsigned_at_bound(buf@, at as int, 4, order);
    }
    let v: u64 = read_unsigned(buf, at, 4, order);
    if v < 0x8000_0000 {
        v as i32
    } else {
        ((v - 0x8000_0000) as i32) + i32::MIN
    }
}

/// The record that starts at `at`: its header, if a whole header lies within
/// the buffer from there on and declares a length other than zero.
pub open spec fn record_at(buf: Seq<u8>, at: int, order: ByteOrder) -> Option<
    FanotifyEventMetadata,
> {
    if 0 <= at && at + EVENT_METADATA_LEN <= buf.len() && header_at(buf, at, order).event_len
        != 0 {
        Some(header_at(buf, at, order))
    } else {
        None
    }
}

/// The records that a walk from `at` meets, in the order of the buffer. Each
/// record is followed by the one that starts as many bytes further on as it
/// declares; the walk ends where `record_at` finds no record.
pub open spec fn records_from(buf: Seq<u8>, at: int, order: ByteOrder) -> Seq<
    FanotifyEventMetadata,
>
    decreases
            (if at < buf.len() {
                buf.len() - at
            } else {
                0
            }),
{
    if record_at(buf, at, order) is Some {
        let metadata = header_at(buf, at, order);
        seq![metadata] + records_from(buf, at + metadata.event_len, order)
    } else {
        Seq::empty()
    }
}

/// The records of a buffer: those that a walk from its first byte meets.
pub open spec fn records(buf: Seq<u8>, order: ByteOrder) -> Seq<FanotifyEventMetadata> {
    records_from(buf, 0, order)
}

/// Decodes the record that starts at `offset`, if there is one.
pub fn decode_record(buf: &[u8], offset: usize, order: ByteOrder) -> (r: Option<
    FanotifyEventMetadata,
>)
    ensures
        r == record_at(buf@, offset as int, order),
{
    if buf.len() < EVENT_METADATA_LEN || offset > buf.len() - EVENT_METADATA_LEN {
        return None;
    }
    proof {
        lemma_unsigned_at_bound(buf@, offset as int, 4, order);
        lemma_unsigned_at_bound(buf@, offset + 6, 2, order);
        lemma_unsigned_at_bound(buf@, offset + 8, 8, order);
    }
    let metadata = FanotifyEventMetadata {
        event_len: read_unsigned(buf, offset, 4, order) as u32,
        vers: buf[offset + 4],
        reserved: buf[offset + 5],
        metadata_len: read_unsigned(buf, offset + 6, 2, order) as u16,
        mask: read_unsigned(buf, offset + 8, 8, order),
        fd: read_signed_32(buf, offset + 16, order),
        pid: read_signed_32(buf, offset + 20, order),
    };
    if metadata.event_len == 0 {
        None
    } else {
        Some(metadata)
    }
}

/// A walk over the records of a buffer, from its first byte on.
pub struct EventWalk<'a> {
    buf: &'a [u8],
    offset: usize,
    order: ByteOrder,
}

impl<'a> EventWalk<'a> {
    /// The walk never leaves the buffer.
    #[verifier::type_invariant]
    spec fn within_buffer(self) -> bool {
        self.offset <= self.buf@.len()
    }

    /// The records that the walk has yet to meet, the next one first.
    pub closed spec fn remaining(&self) -> Seq<FanotifyEventMetadata> {
        records_from(self.buf@, self.offset as int, self.order)
    }

    /// Starts a walk at the first byte of the buffer.
    pub fn new(buf: &'a [u8], order: ByteOrder) -> (walk: EventWalk<'a>)
        ensures
            walk.remaining() == records(buf@, order),
    {
        EventWalk { buf, offset: 0, order }
    }

    /// Decodes the next record and steps over it, by the length that it
    /// declares. Where nothing that remains is a record, nothing is returned
    /// and the walk stays where it is.
    pub fn next_record(&mut self) -> (r: Option<FanotifyEventMetadata>)
        ensures
            match r {
                Some(metadata) => old(self).remaining().len() > 0 && metadata == old(
                    self,
                ).remaining()[0] && final(self).remaining() == old(self).remaining().skip(1),
                None => old(self).remaining().len() == 0 && *final(self) == *old(self),
            },
    {
        proof {
            use_type_invariant(&*self);
        }
        let metadata = match decode_record(self.buf, self.offset, self.order) {
            Some(metadata) => metadata,
            None => {
                return None;
            },
        };
        let ghost before = self.remaining();
        let step: usize = metadata.event_len as usize;
        let left: usize = self.buf.len() - self.offset;
        assert(before.skip(1) =~= records_from(self.buf@, self.offset + step, self.order));
        if step >= left {
            assert(records_from(self.buf@, self.buf@.len() as int, self.order) =~= before.skip(1));
            self.offset = self.buf.len();
        } else {
            self.offset = self.offset + step;
        }
        Some(metadata)
    }
}

/// The handler may be called with each of the records.
pub open spec fn accepts_all<F, E>(handler: F, recs: Seq<FanotifyEventMetadata>) -> bool where
    F: FnMut(&FanotifyEventMetadata) -> Result<(), E>,
 {
    forall|i: int| 0 <= i < recs.len() ==> call_requires(handler, (&#[trigger] recs[i],))
}

/// The handler has answered `Ok` to each of the first `count` records.
pub open spec fn handled<F, E>(handler: F, recs: Seq<FanotifyEventMetadata>, count: int) -> bool where
    F: FnMut(&FanotifyEventMetadata) -> Result<(), E>,
 {
    forall|i: int|
        0 <= i < count ==> call_ensures(handler, (&#[trigger] recs[i],), Ok::<(), E>(()))
}

/// How a dispatch over `recs` may end. With `Ok`, the handler has answered
/// `Ok` to every record. With an error, the handler has answered `Ok` to the
/// records before some record, and to that record with the error.
pub open spec fn dispatched<F, E>(
    handler: F,
    recs: Seq<FanotifyEventMetadata>,
    r: Result<(), E>,
) -> bool where F: FnMut(&FanotifyEventMetadata) -> Result<(), E> {
    match r {
        Ok(_) => handled(handler, recs, recs.len() as int),
        Err(e) => exists|k: int|
            0 <= k < recs.len() && #[trigger] handled(handler, recs, k) && call_ensures(
                handler,
                (&recs[k],),
                Err::<(), E>(e),
            ),
    }
}

/// Walks the buffer and hands each record to the handler, in the order of the
/// buffer. The first error that the handler returns ends the walk and is
/// returned; the records after it are not handed out.
pub fn dispatch_events<F, E>(buf: &[u8], order: ByteOrder, handler: F) -> (r: Result<
    (),
    E,
>) where F: FnMut(&FanotifyEventMetadata) -> Result<(), E>
    requires
        accepts_all(handler, records(buf@, order)),
    ensures
        dispatched(handler, records(buf@, order), r),
        records(buf@, order).len() == 0 ==> r is Ok,
{
    let mut call = handler;
    let mut walk = EventWalk::new(buf, order);
    let ghost recs = records(buf@, order);
    let ghost mut count: int = 0;
    loop
        invariant
            call == handler,
            recs == records(buf@, order),
            accepts_all(handler, recs),
            0 <= count <= recs.len(),
            walk.remaining() == recs.skip(count),
            handled(handler, recs, count),
        decreases recs.len() - count,
    {
        let metadata = match walk.next_record() {
            Some(metadata) => metadata,
            None => {
                assert(recs.skip(count).len() == 0);
                return Ok(());
            },
        };
        assert(recs.skip(count).len() > 0 && recs[count] == metadata);
        match call(&metadata) {
            Ok(done) => {
                assert(done == ());
            },
            Err(e) => {
                return Err(e);
            },
        }
        proof {
            assert(recs.skip(count + 1) =~= recs.skip(count).skip(1));
            count = count + 1;
        }
    }
}

/// `u16::from_ne_bytes`: the number that two bytes make in the byte order of
/// the machine, which is least significant byte first or most significant
/// byte first.
#[verifier::external_body]
fn u16_from_native_bytes(first: u8, second: u8) -> (r: u16)
    ensures
        r == first + 256 * second || r == 256 * first + second,
{
    u16::from_ne_bytes([first, second])
}

/// The byte order of the machine that runs this code, which is the order in
/// which the kernel writes the numbers of a record.
pub fn native_byte_order() -> ByteOrder {
    byte_order_of_probe(u16_from_native_bytes(1, 0))
}

/// The byte order that a probe shows: little-endian where the bytes 1, 0 have
/// been read as the number 1, and big-endian else.
pub open spec fn order_of_probe(probe: u16) -> ByteOrder {
    if probe == 1 {
        ByteOrder::LittleEndian
    } else {
        ByteOrder::BigEndian
    }
}

/// Tells the byte order of a machine from the number as which it has read the
/// two bytes 1, 0. Where that number is one of the two that a machine can
/// read them as, 1 and 256, it is also what `unsigned_at` reads them as in
/// the order returned.
pub fn byte_order_of_probe(probe: u16) -> (order: ByteOrder)
    ensures
        order == order_of_probe(probe),
        probe == 1 || probe == 256 ==> unsigned_at(seq![1u8, 0u8], 0, 2, order) == probe,
{
    proof {
        reveal_with_fuel(unsigned_at, 3);
    }
    if probe == 1 {
        ByteOrder::LittleEndian
    } else {
        ByteOrder::BigEndian
    }
}

/// A system call of the watcher that failed, with the error number it left.
#[derive(Clone, Copy, Debug, PartialEq, Eq, Structural)]
pub enum WatcherError {
    /// The notification channel could not be opened.
    Init { errno: i32 },
    /// The kernel refused the watch.
    Mark { errno: i32 },
    /// Reading from the channel failed, and not for want of events.
    Read { errno: i32 },
}

/// The arguments with which the watch is registered, but for the path.
#[derive(Clone, Copy, Debug, PartialEq, Eq, Structural)]
pub struct MarkRequest {
    /// What to do with the mark.
    pub flags: u32,
    /// The event classes to report.
    pub mask: u64,
    /// The directory that a relative path starts from; none is given.
    pub dirfd: i32,
}

/// The arguments with which the channel is opened.
#[derive(Clone, Copy, Debug, PartialEq, Eq, Structural)]
pub struct InitRequest {
    /// Class and behaviour of the channel.
    pub flags: u32,
    /// How the descriptors that come with the events are opened.
    pub event_f_flags: u32,
}

/// The request that opens the channel: notification class, non-blocking,
/// close-on-exec, and read-only descriptors with the events.
pub open spec fn init_request_spec() -> InitRequest {
    InitRequest { flags: FAN_CLASS_NOTIF | FAN_NONBLOCK | FAN_CLOEXEC, event_f_flags: O_RDONLY }
}

/// The request that registers the watch: the mark is added, with events on
/// children, for creation, move-in and attribute change.
pub open spec fn mark_request_spec() -> MarkRequest {
    MarkRequest {
        flags: FAN_MARK_ADD | FAN_EVENT_ON_CHILD,
        mask: FAN_CREATE | FAN_MOVED_TO | FAN_ATTRIB,
        dirfd: -1i32,
    }
}

/// What a read of `n` bytes, or a failed read that left `errno`, means: the
/// number of bytes that hold events, none where the channel had no event
/// pending, and an error for every other failure.
pub open spec fn read_outcome(n: isize, errno: i32) -> Result<usize, WatcherError> {
    if n >= 0 {
        Ok(n as usize)
    } else if errno == EAGAIN {
        Ok(0usize)
    } else {
        Err(WatcherError::Read { errno })
    }
}

/// The notification channel of one watched tree.
pub struct FanotifyWatcher {
    fd: i32,
    base_dir: String,
}

impl FanotifyWatcher {
    /// A watcher holds the descriptor of an open channel.
    #[verifier::type_invariant]
    spec fn holds_channel(self) -> bool {
        self.fd >= 0
    }

    /// The descriptor of the channel.
    pub closed spec fn channel(&self) -> i32 {
        self.fd
    }

    /// The root of the watched tree.
    pub closed spec fn watched(&self) -> Seq<char> {
        self.base_dir@
    }

    /// The request that opens the channel.
    pub fn init_request() -> (request: InitRequest)
        ensures
            request == init_request_spec(),
            request.flags == 3,
            request.event_f_flags == 0,
    {
        assert(0x0000_0000u32 | 0x0000_0002u32 | 0x0000_0001u32 == 3u32) by (bit_vector);
        InitRequest { flags: FAN_CLASS_NOTIF | FAN_NONBLOCK | FAN_CLOEXEC, event_f_flags: O_RDONLY }
    }

    /// Makes a watcher for `base_dir` of what opening the channel returned:
    /// a descriptor, or a negative number and the error number in `errno`.
    pub fn new(base_dir: &str, fd: i32, errno: i32) -> (r: Result<FanotifyWatcher, WatcherError>)
        ensures
            match r {
                Ok(watcher) => fd >= 0 && watcher.channel() == fd && watcher.watched()
                    == base_dir@,
                Err(e) => fd < 0 && e == (WatcherError::Init { errno }),
            },
    {
        if fd < 0 {
            return Err(WatcherError::Init { errno });
        }
        Ok(FanotifyWatcher { fd, base_dir: base_dir.to_owned() })
    }

    /// The descriptor of the channel, for the calls that mark, read and close.
    pub fn fd(&self) -> (fd: i32)
        ensures
            fd == self.channel(),
            fd >= 0,
    {
        proof {
            use_type_invariant(self);
        }
        self.fd
    }

    /// The root of the watched tree, which is the path to mark.
    pub fn base_dir(&self) -> (path: &str)
        ensures
            path@ == self.watched(),
    {
        self.base_dir.as_str()
    }

    /// The request that registers the watch on the tree.
    pub fn mark_request(&self) -> (request: MarkRequest)
        ensures
            request == mark_request_spec(),
            request.flags == 0x0800_0001,
            request.mask == 0x184,
    {
        assert(0x0000_0001u32 | 0x0800_0000u32 == 0x0800_0001u32) by (bit_vector);
        assert(0x0000_0100u64 | 0x0000_0080u64 | 0x0000_0004u64 == 0x184u64) by (bit_vector);
        MarkRequest {
            flags: FAN_MARK_ADD | FAN_EVENT_ON_CHILD,
            mask: FAN_CREATE | FAN_MOVED_TO | FAN_ATTRIB,
            dirfd: -1,
        }
    }

    /// Judges what registering the watch returned: a negative number says
    /// that the kernel refused, with the error number in `errno`.
    pub fn mark(&self, result: i32, errno: i32) -> (r: Result<(), WatcherError>)
        ensures
            r == (if result < 0 {
                Err(WatcherError::Mark { errno })
            } else {
                Ok::<(), WatcherError>(())
            }),
    {
        if result < 0 {
            Err(WatcherError::Mark { errno })
        } else {
            Ok(())
        }
    }

    /// Judges what a read from the channel returned: the number of bytes
    /// read, or a negative number and the error number in `errno`. A channel
    /// with no event pending is no error: it has delivered no bytes.
    pub fn read_events(&self, n: isize, errno: i32) -> (r: Result<usize, WatcherError>)
        ensures
            r == read_outcome(n, errno),
            n == 0 ==> r == Ok::<usize, WatcherError>(0usize),
    {
        if n >= 0 {
            Ok(n as usize)
        } else if errno == EAGAIN {
            Ok(0)
        } else {
            Err(WatcherError::Read { errno })
        }
    }

    /// Hands each record of the buffer to `process_fn`, in the order of the
    /// buffer, reading the numbers in the byte order of this machine. The
    /// first error that `process_fn` returns ends the walk and is returned.
    pub fn process_events<F, E>(&self, buf: &[u8], process_fn: F) -> (r: Result<(), E>) where
        F: FnMut(&FanotifyEventMetadata) -> Result<(), E>,

        requires
            forall|metadata: FanotifyEventMetadata| call_requires(process_fn, (&metadata,)),
        ensures
            dispatched(process_fn, records(buf@, ByteOrder::LittleEndian), r) || dispatched(
                process_fn,
                records(buf@, ByteOrder::BigEndian),
                r,
            ),
            records(buf@, ByteOrder::LittleEndian).len() == 0 && records(
                buf@,
                ByteOrder::BigEndian,
            ).len() == 0 ==> r is Ok,
            buf@.len() < EVENT_METADATA_LEN ==> r is Ok,
    {
        dispatch_events(buf, native_byte_order(), process_fn)
    }
}

/// Four bytes written out: the first byte counts least in little-endian order
/// and most in big-endian order.
pub proof fn lemma_unsigned_at_four_bytes(buf: Seq<u8>, at: int)
    ensures
        unsigned_at(buf, at, 4, ByteOrder::LittleEndian) == buf[at] + 0x100 * buf[at + 1] + 0x1_0000
            * buf[at + 2] + 0x100_0000 * buf[at + 3],
        unsigned_at(buf, at, 4, ByteOrder::BigEndian) == 0x100_0000 * buf[at] + 0x1_0000 * buf[at
            + 1] + 0x100 * buf[at + 2] + buf[at + 3],
{
    reveal_with_fuel(unsigned_at, 5);
}

/// A number is read from its own bytes alone: two buffers that hold the same
/// `width` bytes, one from `at` on and one from `other_at` on, give the same
/// number.
pub proof fn lemma_unsigned_at_window(
    buf: Seq<u8>,
    at: int,
    other: Seq<u8>,
    other_at: int,
    width: nat,
    order: ByteOrder,
)
    requires
        0 <= at && at + width <= buf.len(),
        0 <= other_at && other_at + width <= other.len(),
        buf.subrange(at, at + width) == other.subrange(other_at, other_at + width),
    ensures
        unsigned_at(buf, at, width, order) == unsigned_at(other, other_at, width, order),
    decreases width,
{
    if width > 0 {
        let window = buf.subrange(at, at + width);
        let other_window = other.subrange(other_at, other_at + width);
        match order {
            ByteOrder::LittleEndian => {
                assert(buf[at] == window[0] && other[other_at] == other_window[0]);
                assert(buf.subrange(at + 1, at + width) =~= window.subrange(1, width as int));
                assert(other.subrange(other_at + 1, other_at + width) =~= other_window.subrange(
                    1,
                    width as int,
                ));
                lemma_unsigned_at_window(
                    buf,
                    at + 1,
                    other,
                    other_at + 1,
                    (width - 1) as nat,
                    order,
                );
            },
            ByteOrder::BigEndian => {
                assert(buf[at + width - 1] == window[width - 1] && other[other_at + width - 1]
                    == other_window[width - 1]);
                assert(buf.subrange(at, at + width - 1) =~= window.subrange(0, width - 1));
                assert(other.subrange(other_at, other_at + width - 1) =~= other_window.subrange(
                    0,
                    width - 1,
                ));
                lemma_unsigned_at_window(buf, at, other, other_at, (width - 1) as nat, order);
            },
        }
    }
}

/// Two headers that hold the same bytes hold the same number in each field:
/// in the `width` bytes that lie `base` bytes into the header.
proof fn lemma_field_window(
    buf: Seq<u8>,
    at: int,
    other: Seq<u8>,
    other_at: int,
    base: int,
    width: nat,
    order: ByteOrder,
)
    requires
        0 <= at && at + EVENT_METADATA_LEN <= buf.len(),
        0 <= other_at && other_at + EVENT_METADATA_LEN <= other.len(),
        buf.subrange(at, at + EVENT_METADATA_LEN) == other.subrange(
            other_at,
            other_at + EVENT_METADATA_LEN,
        ),
        0 <= base && base + width <= EVENT_METADATA_LEN,
    ensures
        unsigned_at(buf, at + base, width, order) == unsigned_at(
            other,
            other_at + base,
            width,
            order,
        ),
{
    let window = buf.subrange(at, at + EVENT_METADATA_LEN);
    let other_window = other.subrange(other_at, other_at + EVENT_METADATA_LEN);
    assert(buf.subrange(at + base, at + base + width) =~= window.subrange(base, base + width));
    assert(other.subrange(other_at + base, other_at + base + width) =~= other_window.subrange(
        base,
        base + width,
    ));
    lemma_unsigned_at_window(buf, at + base, other, other_at + base, width, order);
}

/// A header is read from its own 24 bytes alone.
pub proof fn lemma_header_at_window(
    buf: Seq<u8>,
    at: int,
    other: Seq<u8>,
    other_at: int,
    order: ByteOrder,
)
    requires
        0 <= at && at + EVENT_METADATA_LEN <= buf.len(),
        0 <= other_at && other_at + EVENT_METADATA_LEN <= other.len(),
        buf.subrange(at, at + EVENT_METADATA_LEN) == other.subrange(
            other_at,
            other_at + EVENT_METADATA_LEN,
        ),
    ensures
        header_at(buf, at, order) == header_at(other, other_at, order),
{
    let window = buf.subrange(at, at + EVENT_METADATA_LEN);
    let other_window = other.subrange(other_at, other_at + EVENT_METADATA_LEN);
    lemma_field_window(buf, at, other, other_at, 0, 4, order);
    lemma_field_window(buf, at, other, other_at, 6, 2, order);
    lemma_field_window(buf, at, other, other_at, 8, 8, order);
    lemma_field_window(buf, at, other, other_at, 16, 4, order);
    lemma_field_window(buf, at, other, other_at, 20, 4, order);
    assert(buf[at + 4] == window[4] && other[other_at + 4] == other_window[4]);
    assert(buf[at + 5] == window[5] && other[other_at + 5] == other_window[5]);
}

/// What lies before the place where a walk starts does not matter to it: the
/// walk over `front + rest` from the end of `front` plus `at` meets the
/// records that the walk over `rest` from `at` meets.
pub proof fn lemma_records_from_suffix(front: Seq<u8>, rest: Seq<u8>, at: int, order: ByteOrder)
    requires
        0 <= at,
    ensures
        records_from(front + rest, front.len() + at, order) == records_from(rest, at, order),
    decreases
            (if at < rest.len() {
                rest.len() - at
            } else {
                0
            }),
{
    let whole = front + rest;
    let shifted = front.len() + at;
    if at + EVENT_METADATA_LEN <= rest.len() {
        assert(whole.subrange(shifted, shifted + EVENT_METADATA_LEN) =~= rest.subrange(
            at,
            at + EVENT_METADATA_LEN,
        ));
        lemma_header_at_window(whole, shifted, rest, at, order);
        let metadata = header_at(rest, at, order);
        if metadata.event_len != 0 {
            lemma_records_from_suffix(front, rest, at + metadata.event_len, order);
            assert(shifted + metadata.event_len == front.len() + (at + metadata.event_len));
        }
    }
}

/// A buffer that is too short for a header, or whose first header declares
/// the length zero, holds no record.
pub proof fn lemma_no_records(buf: Seq<u8>, order: ByteOrder)
    requires
        buf.len() < EVENT_METADATA_LEN || header_at(buf, 0, order).event_len == 0,
    ensures
        records(buf, order) == Seq::<FanotifyEventMetadata>::empty(),
{
}

/// `chunk` is one whole record: a header, and trailing data up to the length
/// that the header declares.
pub open spec fn is_whole_record(chunk: Seq<u8>, order: ByteOrder) -> bool {
    chunk.len() >= EVENT_METADATA_LEN && header_at(chunk, 0, order).event_len == chunk.len()
}

/// The headers of a sequence of chunks, in their order.
pub open spec fn headers_of(chunks: Seq<Seq<u8>>, order: ByteOrder) -> Seq<FanotifyEventMetadata> {
    Seq::new(chunks.len(), |i: int| header_at(chunks[i], 0, order))
}

/// A whole record in front of a buffer is the first record of the two
/// together, and the records of the buffer follow it.
pub proof fn lemma_records_after_whole_record(chunk: Seq<u8>, rest: Seq<u8>, order: ByteOrder)
    requires
        is_whole_record(chunk, order),
    ensures
        records(chunk + rest, order) == seq![header_at(chunk, 0, order)] + records(rest, order),
{
    let whole = chunk + rest;
    assert(whole.subrange(0, EVENT_METADATA_LEN as int) =~= chunk.subrange(
        0,
        EVENT_METADATA_LEN as int,
    ));
    lemma_header_at_window(whole, 0, chunk, 0, order);
    lemma_records_from_suffix(chunk, rest, 0, order);
}

/// A buffer made of whole records, one after the other, holds exactly these
/// records, in the order in which they lie in the buffer.
pub proof fn lemma_records_of_whole_records(chunks: Seq<Seq<u8>>, order: ByteOrder)
    requires
        forall|i: int| 0 <= i < chunks.len() ==> is_whole_record(#[trigger] chunks[i], order),
    ensures
        records(chunks.flatten(), order) == headers_of(chunks, order),
        records(chunks.flatten(), order).len() == chunks.len(),
    decreases chunks.len(),
{
    if chunks.len() == 0 {
        assert(records(chunks.flatten(), order) =~= headers_of(chunks, order));
    } else {
        let tail = chunks.drop_first();
        assert forall|i: int| 0 <= i < tail.len() implies is_whole_record(
            #[trigger] tail[i],
            order,
        ) by {
            assert(tail[i] == chunks[i + 1]);
        }
        lemma_records_of_whole_records(tail, order);
        lemma_records_after_whole_record(chunks.first(), tail.flatten(), order);
        assert(headers_of(chunks, order) =~= seq![header_at(chunks.first(), 0, order)]
            + headers_of(tail, order));
    }
}

} // verus!
