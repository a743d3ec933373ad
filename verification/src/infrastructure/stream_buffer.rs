//! Shared download buffer of the streaming playback, and the reading and
//! seeking rules of its reader.
//!
//! The downloader appends bytes; the decoder reads them through a reader
//! with a position. Reading and seeking never block here: when the data is
//! not there yet they answer `Wait`, and the caller waits for the next
//! change of the buffer before asking again. Besides the bytes the buffer
//! keeps the metrics of the buffering monitor: bytes consumed, estimated
//! download speed and playback bitrate.

use vstd::prelude::*;

verus! {

/// Download buffer state.
#[derive(Debug)]
pub struct StreamBuffer {
    buf: Vec<u8>,
    eof: bool,
    err: Option<String>,
    cut: Option<String>,
    consumed: u64,
    bps_ema: u64,
    bitrate: u64,
    stalled: bool,
}

/// Mathematical state of the buffer.
pub struct BufferModel {
    pub bytes: Seq<u8>,
    pub eof: bool,
    pub err: Option<Seq<char>>,
    pub cut: Option<Seq<char>>,
    pub consumed: u64,
    pub bps_ema: u64,
    pub bitrate: u64,
    pub stalled: bool,
}

impl View for StreamBuffer {
    type V = BufferModel;

    closed spec fn view(&self) -> BufferModel {
        BufferModel {
            bytes: self.buf@,
            eof: self.eof,
            err: match self.err {
                Some(e) => Some(e@),
                None => None,
            },
            cut: match self.cut {
                Some(c) => Some(c@),
                None => None,
            },
            consumed: self.consumed,
            bps_ema: self.bps_ema,
            bitrate: self.bitrate,
            stalled: self.stalled,
        }
    }
}

/// Where a seek is measured from.
#[derive(Debug, Clone, Copy, PartialEq, Eq, Structural)]
pub enum SeekFrom {
    Start(u64),
    Current(i64),
    End(i64),
}

/// Answer of a read.
#[derive(Debug, Clone, PartialEq, Eq)]
pub enum ReadStep {
    /// These bytes were read (empty only when nothing was asked for).
    Bytes(Vec<u8>),
    /// End of the stream.
    Eof,
    /// The stream failed with this message.
    Failed(String),
    /// No data yet: wait for the buffer to change and read again.
    Wait,
}

/// Answer of a seek.
#[derive(Debug, Clone, PartialEq, Eq)]
pub enum SeekStep {
    /// The reader moved to this position.
    Moved(u64),
    /// The target is not downloaded yet (or the end is unknown): wait and
    /// seek again.
    Wait,
    /// The target is invalid (negative, or beyond the end of the stream).
    Invalid(String),
    /// The stream failed with this message.
    Failed(String),
}

/// Bytes downloaded and not yet consumed, as milliseconds of audio at
/// `bitrate` bits per second (0 when the bitrate is unknown).
pub open spec fn buffered_ms_spec(downloaded: int, consumed: int, bitrate: int) -> int {
    if bitrate == 0 {
        0
    } else {
        let pending = if downloaded > consumed { downloaded - consumed } else { 0 };
        pending * 8000 / bitrate
    }
}

/// Target of a seek from position `pos` over `len` bytes.
pub open spec fn seek_target(pos: u64, from: SeekFrom, len: nat) -> int {
    match from {
        SeekFrom::Start(off) => off as i64 as int,
        SeekFrom::Current(delta) => pos + delta,
        SeekFrom::End(off) => len + off,
    }
}

/// The target of a seek fits the signed 64-bit arithmetic of positions.
pub open spec fn seek_in_range(pos: u64, from: SeekFrom, len: nat) -> bool {
    match from {
        SeekFrom::Start(_) => true,
        SeekFrom::Current(delta) => pos <= i64::MAX && i64::MIN <= pos + delta <= i64::MAX,
        SeekFrom::End(off) => len <= i64::MAX && i64::MIN <= len + off <= i64::MAX,
    }
}

/// Mathematical content of a [`SeekStep`].
pub enum SeekAnswer {
    Moved(u64),
    Wait,
    Invalid(Seq<char>),
    Failed(Seq<char>),
}

/// View of a seek answer.
pub open spec fn seek_answer(s: SeekStep) -> SeekAnswer {
    match s {
        SeekStep::Moved(p) => SeekAnswer::Moved(p),
        SeekStep::Wait => SeekAnswer::Wait,
        SeekStep::Invalid(m) => SeekAnswer::Invalid(m@),
        SeekStep::Failed(m) => SeekAnswer::Failed(m@),
    }
}

/// Answer of a seek on a buffer model: measuring from the end waits for
/// the end (or an error); a negative target is invalid; an error is
/// reported; a downloaded target is reached; beyond the end of a finished
/// stream is invalid; otherwise wait for more data.
pub open spec fn seek_spec(m: BufferModel, pos: u64, from: SeekFrom) -> SeekAnswer {
    let len = m.bytes.len();
    if (from is End) && !m.eof && m.err is None {
        SeekAnswer::Wait
    } else {
        let target = seek_target(pos, from, len);
        if target < 0 {
            SeekAnswer::Invalid("posición negativa"@)
        } else {
            match m.err {
                Some(e) => SeekAnswer::Failed(e),
                None => if len >= target {
                    SeekAnswer::Moved(target as u64)
                } else if m.eof {
                    SeekAnswer::Invalid("seek más allá del final"@)
                } else {
                    SeekAnswer::Wait
                },
            }
        }
    }
}

impl StreamBuffer {
    /// Empty buffer, nothing downloaded.
    pub fn new() -> (b: Self)
        ensures
            b@.bytes.len() == 0,
            !b@.eof,
            b@.err is None,
            b@.cut is None,
            b@.consumed == 0,
            b@.bps_ema == 0,
            b@.bitrate == 0,
            !b@.stalled,
    {
        StreamBuffer {
            buf: Vec::new(),
            eof: false,
            err: None,
            cut: None,
            consumed: 0,
            bps_ema: 0,
            bitrate: 0,
            stalled: false,
        }
    }

    /// Appends downloaded bytes.
    pub fn append(&mut self, bytes: &[u8])
        ensures
            final(self)@ == (BufferModel { bytes: old(self)@.bytes + bytes@, ..old(self)@ }),
    {
        let mut i: usize = 0;
        let ghost start = self.buf@;
        while i < bytes.len()
            invariant
                i <= bytes@.len(),
                self.buf@ == start + bytes@.subrange(0, i as int),
                self.eof == old(self).eof,
                self.err == old(self).err,
                self.cut == old(self).cut,
                self.consumed == old(self).consumed,
                self.bps_ema == old(self).bps_ema,
                self.bitrate == old(self).bitrate,
                self.stalled == old(self).stalled,
                start == old(self)@.bytes,
            decreases bytes@.len() - i,
        {
            self.buf.push(bytes[i]);
            assert(self.buf@ =~= start + bytes@.subrange(0, i + 1));
            i = i + 1;
        }
        assert(bytes@.subrange(0, bytes@.len() as int) =~= bytes@);
    }

    /// The download reached the end.
    pub fn finish(&mut self)
        ensures
            final(self)@ == (BufferModel { eof: true, ..old(self)@ }),
    {
        self.eof = true;
    }

    /// End of data because of a CDN cut: the bytes already downloaded keep
    /// playing until exhausted (readers see a normal end, not an error).
    pub fn set_cut(&mut self, msg: String)
        ensures
            final(self)@ == (BufferModel { cut: Some(msg@), eof: true, ..old(self)@ }),
    {
        self.cut = Some(msg);
        self.eof = true;
    }

    /// Message of the CDN cut, if any.
    pub fn cut(&self) -> (c: Option<String>)
        ensures
            match c {
                Some(s) => self@.cut == Some(s@),
                None => self@.cut is None,
            },
    {
        match &self.cut {
            Some(s) => Some(s.clone()),
            None => None,
        }
    }

    /// The read failed: every reader gets the error.
    pub fn fail(&mut self, err: String)
        ensures
            final(self)@ == (BufferModel { err: Some(err@), ..old(self)@ }),
    {
        self.err = Some(err);
    }

    /// Cancels the reading in progress (change of song or stop).
    pub fn cancel(&mut self)
        ensures
            final(self)@ == (BufferModel { err: Some("reproducción cancelada"@), ..old(self)@ }),
    {
        self.fail(String::from_str("reproducción cancelada"));
    }

    /// Whether the reading ended with an error.
    pub fn failed(&self) -> (b: bool)
        ensures
            b == self@.err is Some,
    {
        self.err.is_some()
    }

    /// The error, if any.
    pub fn error(&self) -> (e: Option<String>)
        ensures
            match e {
                Some(s) => self@.err == Some(s@),
                None => self@.err is None,
            },
    {
        match &self.err {
            Some(s) => Some(s.clone()),
            None => None,
        }
    }

    /// Whether the download reached the end.
    pub fn eof(&self) -> (b: bool)
        ensures
            b == self@.eof,
    {
        self.eof
    }

    /// Bytes downloaded so far.
    pub fn downloaded(&self) -> (n: u64)
        ensures
            n == self@.bytes.len(),
    {
        self.buf.len() as u64
    }

    /// Furthest position consumed by a reader.
    pub fn consumed(&self) -> (n: u64)
        ensures
            n == self@.consumed,
    {
        self.consumed
    }

    /// Records the position reached by a reader (the maximum is kept).
    pub fn note_consumed(&mut self, pos: u64)
        ensures
            final(self)@ == (BufferModel {
                consumed: if pos > old(self)@.consumed { pos } else { old(self)@.consumed },
                ..old(self)@
            }),
    {
        if pos > self.consumed {
            self.consumed = pos;
        }
    }

    /// Sets the estimated download speed (bits/s).
    pub fn set_bps_ema(&mut self, bps: u64)
        ensures
            final(self)@ == (BufferModel { bps_ema: bps, ..old(self)@ }),
    {
        self.bps_ema = bps;
    }

    /// Estimated download speed (bits/s).
    pub fn bps_ema(&self) -> (b: u64)
        ensures
            b == self@.bps_ema,
    {
        self.bps_ema
    }

    /// Sets the playback bitrate (bits/s).
    pub fn set_bitrate(&mut self, bps: u64)
        ensures
            final(self)@ == (BufferModel { bitrate: bps, ..old(self)@ }),
    {
        self.bitrate = bps;
    }

    /// Playback bitrate (bits/s) to turn bytes into time.
    pub fn bitrate(&self) -> (b: u64)
        ensures
            b == self@.bitrate,
    {
        self.bitrate
    }

    /// Sets or clears the "refilling / waiting for data" signal.
    pub fn set_stalled(&mut self, stalled: bool)
        ensures
            final(self)@ == (BufferModel { stalled, ..old(self)@ }),
    {
        self.stalled = stalled;
    }

    /// Whether the decoder waits for data.
    pub fn is_stalled(&self) -> (b: bool)
        ensures
            b == self@.stalled,
    {
        self.stalled
    }

    /// Downloaded audio not yet consumed, in milliseconds (saturating).
    pub fn buffered_ms(&self) -> (ms: u64)
        ensures
            ms as int == if buffered_ms_spec(self@.bytes.len() as int, self@.consumed as int, self@.bitrate as int) > u64::MAX {
                u64::MAX as int
            } else {
                buffered_ms_spec(self@.bytes.len() as int, self@.consumed as int, self@.bitrate as int)
            },
    {
        if self.bitrate == 0 {
            return 0;
        }
        let downloaded = self.buf.len() as u64;
        let pending: u64 = if downloaded > self.consumed { downloaded - self.consumed } else { 0 };
        proof {
            assert(pending * 8000 <= u64::MAX * 8000) by (nonlinear_arith)
                requires
                    pending <= u64::MAX,
            ;
        }
        let product: u128 = (pending as u128) * 8000;
        let ms: u128 = product / (self.bitrate as u128);
        if ms > u64::MAX as u128 {
            u64::MAX
        } else {
            ms as u64
        }
    }

    /// Reads up to `max` bytes at position `pos`. On data the reader moves
    /// past them (and the consumption mark follows); otherwise the error,
    /// the end, or a wait.
    pub fn read_at(&mut self, pos: u64, max: usize) -> (r: (ReadStep, u64))
        ensures
            ({
                let m = old(self)@;
                let len = m.bytes.len();
                if pos < len {
                    let n = if len - pos < max { len - pos } else { max as int };
                    &&& r.0 matches ReadStep::Bytes(v) && v@ == m.bytes.subrange(pos as int, pos + n)
                    &&& r.1 == pos + n
                    &&& final(self)@ == (BufferModel {
                        consumed: if r.1 > m.consumed { r.1 } else { m.consumed },
                        ..m
                    })
                } else {
                    &&& r.1 == pos
                    &&& final(self)@ == m
                    &&& match m.err {
                        Some(e) => r.0 matches ReadStep::Failed(s) && s@ == e,
                        None => if m.eof {
                            r.0 == ReadStep::Eof
                        } else {
                            r.0 == ReadStep::Wait
                        },
                    }
                }
            }),
    {
        let len = self.buf.len();
        if (pos as u128) < (len as u128) {
            let start = pos as usize;
            let avail = len - start;
            let n = if avail < max { avail } else { max };
            let mut out: Vec<u8> = Vec::new();
            let mut i: usize = 0;
            while i < n
                invariant
                    i <= n,
                    len == self.buf@.len(),
                    start + n <= len,
                    out@ == self.buf@.subrange(start as int, start + i),
                decreases n - i,
            {
                out.push(self.buf[start + i]);
                assert(out@ =~= self.buf@.subrange(start as int, start + i + 1));
                i = i + 1;
            }
            let next = pos + n as u64;
            self.note_consumed(next);
            return (ReadStep::Bytes(out), next);
        }
        match &self.err {
            Some(e) => (ReadStep::Failed(e.clone()), pos),
            None => if self.eof {
                (ReadStep::Eof, pos)
            } else {
                (ReadStep::Wait, pos)
            },
        }
    }

    /// Moves a reader at `pos` (see [`seek_spec`]); on success the
    /// consumption mark follows the new position.
    pub fn seek(&mut self, pos: u64, from: SeekFrom) -> (r: SeekStep)
        requires
            seek_in_range(pos, from, old(self)@.bytes.len()),
        ensures
            seek_answer(r) == seek_spec(old(self)@, pos, from),
            match r {
                SeekStep::Moved(p) => final(self)@ == (BufferModel {
                    consumed: if p > old(self)@.consumed { p } else { old(self)@.consumed },
                    ..old(self)@
                }),
                _ => final(self)@ == old(self)@,
            },
    {
        let len = self.buf.len();
        let target: i64 = match from {
            SeekFrom::Start(off) => off as i64,
            SeekFrom::Current(delta) => pos as i64 + delta,
            SeekFrom::End(off) => {
                if !self.eof && self.err.is_none() {
                    return SeekStep::Wait;
                }
                len as i64 + off
            },
        };
        if target < 0 {
            return SeekStep::Invalid(String::from_str("posición negativa"));
        }
        if let Some(e) = &self.err {
            return SeekStep::Failed(e.clone());
        }
        let need = target as u64;
        if (len as u64) < need {
            if self.eof {
                return SeekStep::Invalid(String::from_str("seek más allá del final"));
            }
            return SeekStep::Wait;
        }
        self.note_consumed(need);
        SeekStep::Moved(need)
    }
}

} // verus!
