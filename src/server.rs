//! The server's fixed configuration: what each connection is sent, and when.
use vstd::prelude::*;

use crate::decimal::{decimal, decimal_bytes};
use crate::head::{
    copy_bytes, fields_view, named_otherwise, render_head, response_head, set_field, set_fields, set_header,
    FieldBytes,
};

verus! {

/// Length in bytes of each body block: the unit of body writes and of throttling.
pub const BLOCK_SIZE: u64 = 8192;

/// Nanoseconds in one second.
pub const NANOS_PER_SECOND: u64 = 1_000_000_000;

/// `BLOCK_SIZE` bytes over one second, in byte-nanoseconds.
pub const BLOCK_NANOS: u64 = 8_192_000_000_000;

/// `"Content-Length"`
pub open spec fn content_length_name() -> Seq<u8> {
    seq![67, 111, 110, 116, 101, 110, 116, 45, 76, 101, 110, 103, 116, 104]
}

/// Number of whole blocks in `send` bytes; a remainder is dropped.
pub open spec fn block_count_of(send: nat) -> nat {
    send / (BLOCK_SIZE as nat)
}

/// The pause after each block, in nanoseconds, that holds a block to at most
/// `rate` bytes per second: the least whole number of nanoseconds `d` with
/// `d * rate >= BLOCK_SIZE * NANOS_PER_SECOND`. With no throttle there is no
/// pause; a rate of zero pauses as long as a `u64` of nanoseconds can say.
pub open spec fn throttle_delay(throttle: Option<u64>) -> nat {
    match throttle {
        None => 0,
        Some(rate) => if rate == 0 {
            u64::MAX as nat
        } else if BLOCK_NANOS % rate == 0 {
            (BLOCK_NANOS / rate) as nat
        } else {
            (BLOCK_NANOS / rate + 1) as nat
        },
    }
}

/// The header fields a response carries: the configured ones, the last of
/// several with one name winning, with `Content-Length` set to `file_size`.
pub open spec fn declared_fields(headers: Seq<FieldBytes>, file_size: nat) -> Seq<FieldBytes> {
    set_field(set_fields(Seq::empty(), headers), content_length_name(), decimal(file_size))
}

/// What a server sends on each connection, with durations in nanoseconds.
pub struct ServerView {
    /// Body blocks sent after the head.
    pub block_count: nat,
    /// Pause after each body block.
    pub block_delay: nat,
    /// Pause after the last block, before the connection is closed.
    pub idle_after: nat,
    /// The response head: status line, header lines, blank line.
    pub head: Seq<u8>,
    /// Read and write deadline of each socket operation; `None` for none.
    pub deadline: Option<u64>,
}

/// The view of a server configured with the given values.
pub open spec fn configured(
    file_size: u64,
    send: u64,
    throttle: Option<u64>,
    sleep_after: u64,
    headers: Seq<FieldBytes>,
    timeout: Option<u64>,
) -> ServerView {
    ServerView {
        block_count: block_count_of(send as nat),
        block_delay: throttle_delay(throttle),
        idle_after: sleep_after as nat,
        head: response_head(declared_fields(headers, file_size as nat)),
        deadline: timeout,
    }
}

/// The configuration shared, read-only, by every connection of a server.
#[derive(Clone)]
pub struct SoCloseServer {
    send_block_count: u64,
    sleep_between: u64,
    sleep_after: u64,
    response_head: Vec<u8>,
    timeout: Option<u64>,
}

impl View for SoCloseServer {
    type V = ServerView;

    closed spec fn view(&self) -> ServerView {
        ServerView {
            block_count: self.send_block_count as nat,
            block_delay: self.sleep_between as nat,
            idle_after: self.sleep_after as nat,
            head: self.response_head@,
            deadline: self.timeout,
        }
    }
}

/// The pause after each block for the given throttle, in nanoseconds.
pub fn block_delay_for(throttle: Option<u64>) -> (r: u64)
    ensures
        r as nat == throttle_delay(throttle),
{
    match throttle {
        None => 0,
        Some(rate) => if rate == 0 {
            u64::MAX
        } else if BLOCK_NANOS % rate == 0 {
            BLOCK_NANOS / rate
        } else {
            BLOCK_NANOS / rate + 1
        },
    }
}

/// The fields of a response carry one `Content-Length`, the last field, and
/// its value is `file_size` in decimal, whatever `headers` holds: a given
/// `Content-Length` never survives.
pub proof fn lemma_content_length_declared(headers: Seq<FieldBytes>, file_size: nat)
    ensures
        declared_fields(headers, file_size).last() == (content_length_name(), decimal(file_size)),
        forall|i: int|
            0 <= i < declared_fields(headers, file_size).len()
                && #[trigger] declared_fields(headers, file_size)[i].0 == content_length_name()
                ==> declared_fields(headers, file_size)[i].1 == decimal(file_size),
{
    let given = set_fields(Seq::empty(), headers);
    let kept = given.filter(named_otherwise(content_length_name()));
    let fields = declared_fields(headers, file_size);
    assert forall|i: int|
        0 <= i < fields.len() && #[trigger] fields[i].0 == content_length_name() implies fields[i].1
        == decimal(file_size) by {
        if i < kept.len() {
            given.lemma_filter_pred(named_otherwise(content_length_name()), i);
            assert(fields[i] == kept[i]);
        }
    }
}

/// The pause after each block is the least whole number of nanoseconds in
/// which a block keeps to the throttle rate; with no throttle there is none.
pub proof fn lemma_throttle_delay(throttle: Option<u64>)
    ensures
        throttle is None ==> throttle_delay(throttle) == 0,
        forall|rate: u64|
            throttle == Some(rate) && rate > 0 ==> {
                &&& throttle_delay(throttle) * rate >= BLOCK_SIZE * NANOS_PER_SECOND
                &&& (throttle_delay(throttle) - 1) * rate < BLOCK_SIZE * NANOS_PER_SECOND
            },
{
    if let Some(rate) = throttle {
        if rate > 0 {
            let x = BLOCK_NANOS as int;
            let q = x / (rate as int);
            let m = x % (rate as int);
            assert(x == q * rate + m && 0 <= m < rate) by (nonlinear_arith)
                requires
                    rate > 0,
                    q == x / (rate as int),
                    m == x % (rate as int),
            ;
            if m == 0 {
                assert(q * rate >= x && (q - 1) * rate < x) by (nonlinear_arith)
                    requires
                        x == q * rate + m,
                        m == 0,
                        rate > 0,
                ;
            } else {
                assert((q + 1) * rate >= x && q * rate < x) by (nonlinear_arith)
                    requires
                        x == q * rate + m,
                        0 < m < rate,
                ;
            }
        }
    }
}

impl SoCloseServer {
    /// The counts of a server fit in a `u64`.
    pub proof fn lemma_bounds(&self)
        ensures
            self@.block_count <= u64::MAX,
            self@.block_delay <= u64::MAX,
            self@.idle_after <= u64::MAX,
    {
    }

    /// A server that declares `file_size` body bytes and sends the whole
    /// blocks of `send` bytes, pausing after each block as `throttle` (bytes
    /// per second) asks and for `sleep_after` nanoseconds after the last. Each
    /// response carries `headers`, the last of several with one name winning,
    /// and a `Content-Length` of `file_size` in place of any given one. Every
    /// socket read and write has the deadline `timeout`, in nanoseconds.
    pub fn new(
        file_size: u64,
        send: u64,
        throttle: Option<u64>,
        sleep_after: u64,
        headers: Vec<(Vec<u8>, Vec<u8>)>,
        timeout: Option<u64>,
    ) -> (r: SoCloseServer)
        ensures
            r@ == configured(file_size, send, throttle, sleep_after, fields_view(headers@), timeout),
    {
        let mut fields: Vec<(Vec<u8>, Vec<u8>)> = Vec::new();
        let mut i: usize = 0;
        while i < headers.len()
            invariant
                i <= headers@.len(),
                fields_view(fields@) == set_fields(
                    Seq::empty(),
                    fields_view(headers@.subrange(0, i as int)),
                ),
            decreases headers@.len() - i,
        {
            let ghost after = fields_view(headers@.subrange(0, i + 1));
            assert(after.drop_last() =~= fields_view(headers@.subrange(0, i as int)));
            assert(after.last() == (headers@[i as int].0@, headers@[i as int].1@));
            let name = copy_bytes(&headers[i].0);
            let value = copy_bytes(&headers[i].1);
            set_header(&mut fields, name, value);
            i = i + 1;
        }
        assert(headers@.subrange(0, i as int) =~= headers@);
        let length_name: Vec<u8> = vec![67, 111, 110, 116, 101, 110, 116, 45, 76, 101, 110, 103, 116, 104];
        assert(length_name@ =~= content_length_name());
        set_header(&mut fields, length_name, decimal_bytes(file_size));
        SoCloseServer {
            send_block_count: send / BLOCK_SIZE,
            sleep_between: block_delay_for(throttle),
            sleep_after,
            response_head: render_head(&fields),
            timeout,
        }
    }

    /// Body blocks sent on each connection.
    pub fn block_count(&self) -> (r: u64)
        ensures
            r as nat == self@.block_count,
    {
        self.send_block_count
    }

    /// Pause after each body block, in nanoseconds.
    pub fn block_delay(&self) -> (r: u64)
        ensures
            r as nat == self@.block_delay,
    {
        self.sleep_between
    }

    /// Pause after the last body block, in nanoseconds.
    pub fn idle_after(&self) -> (r: u64)
        ensures
            r as nat == self@.idle_after,
    {
        self.sleep_after
    }

    /// The response head sent to each `GET` request.
    pub fn response_head(&self) -> (r: &Vec<u8>)
        ensures
            r@ == self@.head,
    {
        &self.response_head
    }

    /// Deadline of each socket read and write, in nanoseconds.
    pub fn deadline(&self) -> (r: Option<u64>)
        ensures
            r == self@.deadline,
    {
        self.timeout
    }
}

} // verus!
