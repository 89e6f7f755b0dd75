//! Sources of bytes, and reading whole blocks from them.

use vstd::prelude::*;

verus! {

/// Why a source handed out no bytes.
#[derive(Debug, Clone, Copy, PartialEq, Eq)]
pub struct ReadError {
    /// The number by which the source tells its failures apart, such as the
    /// error code of the operating system.
    pub code: i32,
}

/// Something that hands out bytes in order, as many at a time as it likes,
/// until it ends or fails.
pub trait Source {
    /// The bytes that the source hands out before it ends or fails.
    spec fn remaining(&self) -> Seq<u8>;

    /// The failure that waits behind those bytes, or `None` where the source
    /// ends behind them.
    spec fn fault(&self) -> Option<ReadError>;

    /// Moves the next bytes of the source into `buffer`, from index `start`
    /// on, and returns how many. Where the buffer has room and the source has
    /// bytes, it moves at least one. Where the buffer has room and the source
    /// has none, it returns zero at the end of the source and the failure
    /// where one waits; the buffer stays as it was, and of the source after a
    /// failure nothing is said.
    fn read(&mut self, buffer: &mut Vec<u8>, start: usize) -> (r: Result<usize, ReadError>)
        requires
            start <= old(buffer)@.len(),
        ensures
            r is Err <==> start < old(buffer)@.len() && old(self).remaining().len() == 0 && old(
                self,
            ).fault() is Some,
            r matches Err(e) ==> old(self).fault() == Some(e) && final(buffer)@ == old(buffer)@,
            r matches Ok(n) ==> {
                &&& n <= old(buffer)@.len() - start
                &&& n <= old(self).remaining().len()
                &&& n == 0 ==> start == old(buffer)@.len() || old(self).remaining().len() == 0
                &&& final(self).remaining() == old(self).remaining().skip(n as int)
                &&& final(self).fault() == old(self).fault()
                &&& final(buffer)@ == old(buffer)@.take(start as int) + old(
                    self,
                ).remaining().take(n as int) + old(buffer)@.skip(start + n)
            },
    ;
}

/// A source that hands out the bytes of a buffer, at most a fixed number of
/// them at a time, and behind them ends or fails.
pub struct SliceReader {
    data: Vec<u8>,
    position: usize,
    step: usize,
    fault: Option<ReadError>,
}

impl SliceReader {
    #[verifier::type_invariant]
    spec fn well_formed(self) -> bool {
        self.position <= self.data@.len() && self.step >= 1
    }

    /// The most bytes that one call of `read` hands out.
    pub closed spec fn step(&self) -> nat {
        self.step as nat
    }

    /// A source of `data` that hands out as much as is asked for, and ends
    /// behind the data.
    pub fn new(data: Vec<u8>) -> (reader: SliceReader)
        ensures
            reader.remaining() == data@,
            reader.fault() is None,
            reader.step() == usize::MAX,
    {
        assert(data@.skip(0) =~= data@);
        SliceReader { data, position: 0, step: usize::MAX, fault: None }
    }

    /// A source of `data` that hands out at most `step` bytes at a time, and
    /// ends behind the data.
    pub fn with_step(data: Vec<u8>, step: usize) -> (reader: SliceReader)
        requires
            step >= 1,
        ensures
            reader.remaining() == data@,
            reader.fault() is None,
            reader.step() == step,
    {
        assert(data@.skip(0) =~= data@);
        SliceReader { data, position: 0, step, fault: None }
    }

    /// A source of `data` that hands out at most `step` bytes at a time, and
    /// behind the data fails with `error` as often as it is asked.
    pub fn with_fault(data: Vec<u8>, step: usize, error: ReadError) -> (reader: SliceReader)
        requires
            step >= 1,
        ensures
            reader.remaining() == data@,
            reader.fault() == Some(error),
            reader.step() == step,
    {
        assert(data@.skip(0) =~= data@);
        SliceReader { data, position: 0, step, fault: Some(error) }
    }
}

impl Source for SliceReader {
    closed spec fn remaining(&self) -> Seq<u8> {
        self.data@.skip(self.position as int)
    }

    closed spec fn fault(&self) -> Option<ReadError> {
        self.fault
    }

    /// Hands out as many bytes as the buffer has room for, the source has
    /// left and one step allows. A failure leaves the source as it was.
    fn read(&mut self, buffer: &mut Vec<u8>, start: usize) -> (r: Result<usize, ReadError>)
        ensures
            r matches Ok(n) ==> n == vstd::math::min(
                vstd::math::min(old(buffer)@.len() - start, old(self).remaining().len() as int),
                old(self).step() as int,
            ),
            r is Err ==> final(self).remaining() == old(self).remaining() && final(self).fault()
                == old(self).fault(),
            final(self).step() == old(self).step(),
    {
        proof {
            use_type_invariant(&*self);
        }
        let size = buffer.len();
        let total = self.data.len();
        let room = size - start;
        let left = total - self.position;
        if room > 0 && left == 0 {
            match self.fault {
                Some(error) => {
                    return Err(error);
                },
                None => {},
            }
        }
        let mut n = if room < left {
            room
        } else {
            left
        };
        if self.step < n {
            n = self.step;
        }
        let mut i: usize = 0;
        while i < n
            invariant
                i <= n,
                start + n <= size,
                self.position + n <= total,
                size == buffer@.len(),
                total == self.data@.len(),
                buffer@.len() == old(buffer)@.len(),
                self.data == old(self).data,
                self.position == old(self).position,
                self.step == old(self).step,
                self.fault == old(self).fault,
                buffer@ == old(buffer)@.take(start as int) + old(self).remaining().take(i as int)
                    + old(buffer)@.skip(start + i),
            decreases n - i,
        {
            buffer.set(start + i, self.data[self.position + i]);
            i += 1;
            assert(buffer@ =~= old(buffer)@.take(start as int) + old(self).remaining().take(
                i as int,
            ) + old(buffer)@.skip(start + i));
        }
        self.position = self.position + n;
        assert(self.remaining() =~= old(self).remaining().skip(n as int));
        Ok(n)
    }
}

/// What [`read_exact`] returns on a buffer of `size` bytes: the size where the
/// source has that many bytes, else the failure that waits behind its bytes,
/// or their number where none waits.
pub open spec fn spec_read_exact(remaining: Seq<u8>, fault: Option<ReadError>, size: nat) -> Result<
    usize,
    ReadError,
> {
    if remaining.len() >= size {
        Ok(size as usize)
    } else {
        match fault {
            Some(e) => Err(e),
            None => Ok(remaining.len() as usize),
        }
    }
}

/// Fills `buffer` from its start with the next bytes of `file`, asking again
/// until the buffer is full or the source has no more, and returns how many
/// bytes it took. The first read that fails ends the work, and its error is
/// the result; the bytes taken before it are in the buffer.
pub fn read_exact<S: Source>(file: &mut S, buffer: &mut Vec<u8>) -> (r: Result<usize, ReadError>)
    ensures
        r == spec_read_exact(old(file).remaining(), old(file).fault(), old(buffer)@.len()),
        final(buffer)@ == old(file).remaining().take(
            vstd::math::min(old(buffer)@.len() as int, old(file).remaining().len() as int),
        ) + old(buffer)@.skip(
            vstd::math::min(old(buffer)@.len() as int, old(file).remaining().len() as int),
        ),
        r matches Ok(sum) ==> final(file).remaining() == old(file).remaining().skip(sum as int)
            && final(file).fault() == old(file).fault(),
{
    let mut sum: usize = 0;
    let size = buffer.len();
    while sum < size
        invariant
            sum <= size,
            size == buffer@.len(),
            size == old(buffer)@.len(),
            sum <= old(file).remaining().len(),
            file.remaining() == old(file).remaining().skip(sum as int),
            file.fault() == old(file).fault(),
            buffer@ == old(file).remaining().take(sum as int) + old(buffer)@.skip(sum as int),
        ensures
            sum == size || (sum == old(file).remaining().len() && old(file).fault() is None),
        decreases size - sum,
    {
        let ghost left = file.remaining();
        match file.read(buffer, sum) {
            Err(e) => {
                return Err(e);
            },
            Ok(n) => {
                if n == 0 {
                    break ;
                }
                assert(buffer@ =~= old(file).remaining().take(sum + n) + old(buffer)@.skip(
                    sum + n,
                ));
                assert(left.skip(n as int) =~= old(file).remaining().skip(sum + n));
                sum += n;
            },
        }
    }
    Ok(sum)
}

} // verus!
