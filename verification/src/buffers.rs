//! Buffers for moving data, in a few standard sizes.
use vstd::arithmetic::power2::pow2;
use vstd::prelude::*;

verus! {

/// The growable byte buffer of the `bytes` crate, as an opaque value.
#[verifier::external_type_specification]
#[verifier::external_body]
pub struct ExBytesMut(bytes::BytesMut);

/// The bytes that a buffer holds.
pub uninterp spec fn buffer_contents(b: bytes::BytesMut) -> Seq<u8>;

/// The number of bytes that a buffer was made for.
pub uninterp spec fn buffer_made_for(b: bytes::BytesMut) -> nat;

/// `BytesMut::with_capacity` makes a buffer for `capacity` bytes that holds none yet. How much more
/// the allocator may have given it is left unsaid.
#[verifier::external_body]
fn with_capacity(capacity: usize) -> (result: bytes::BytesMut)
    requires
        capacity <= isize::MAX,
    ensures
        buffer_contents(result).len() == 0,
        buffer_made_for(result) == capacity,
{
    bytes::BytesMut::with_capacity(capacity)
}

/// The standard sizes.
pub open spec fn size_classes() -> Seq<usize> {
    seq![1024, 4096, 8192, 16384, 32768, 65536]
}

/// `size` is the least power of two that is at least `n`.
pub open spec fn is_next_power(size: usize, n: usize) -> bool {
    &&& exists|k: nat| size == #[trigger] pow2(k)
    &&& n <= size
    &&& size / 2 < n
}

/// `size` is the size of a buffer for at least `min_size` bytes: the least standard size that is
/// large enough, or else the next power of two.
pub open spec fn is_buffer_size(min_size: usize, size: usize) -> bool {
    if min_size <= 65536 {
        &&& size_classes().contains(size)
        &&& min_size <= size
        &&& forall|other: usize| #[trigger]
            size_classes().contains(other) && min_size <= other ==> size <= other
    } else {
        is_next_power(size, min_size)
    }
}

/// The size of a buffer for at least `min_size` bytes.
pub fn buffer_size(min_size: usize) -> (result: usize)
    requires
        min_size <= isize::MAX / 2 + 1,
    ensures
        is_buffer_size(min_size, result),
        result >= min_size,
        result <= isize::MAX,
{
    proof {
        let s = size_classes();
        assert(s[0] == 1024 && s[1] == 4096 && s[2] == 8192 && s[3] == 16384 && s[4] == 32768 && s[5]
            == 65536);
    }
    if min_size <= 1024 {
        1024
    } else if min_size <= 4096 {
        4096
    } else if min_size <= 8192 {
        8192
    } else if min_size <= 16384 {
        16384
    } else if min_size <= 32768 {
        32768
    } else if min_size <= 65536 {
        65536
    } else {
        let mut size: usize = 65536;
        let ghost mut k: nat = 16;
        proof {
            vstd::arithmetic::power2::lemma2_to64();
        }
        while size < min_size
            invariant
                65536 <= size,
                size / 2 < min_size,
                min_size <= isize::MAX / 2 + 1,
                size == pow2(k),
                size <= isize::MAX / 2 + 1 || size >= min_size,
                size <= isize::MAX,
            decreases 2 * min_size + 1 - size,
        {
            proof {
                vstd::arithmetic::power2::lemma_pow2_unfold(k + 1);
                if size > isize::MAX / 2 {
                    assert(size >= min_size);
                }
                k = k + 1;
            }
            size = size * 2;
        }
        size
    }
}

/// A buffer for exactly as many bytes as a standard size has that size.
proof fn lemma_standard_size(class: usize, size: usize)
    requires
        size_classes().contains(class),
        is_buffer_size(class, size),
    ensures
        size == class,
{
    let s = size_classes();
    assert(s[0] == 1024 && s[1] == 4096 && s[2] == 8192 && s[3] == 16384 && s[4] == 32768 && s[5]
        == 65536);
}

/// Get a buffer with the specified minimum size.
pub fn get_buffer(min_size: usize) -> (result: bytes::BytesMut)
    requires
        min_size <= isize::MAX / 2 + 1,
    ensures
        buffer_contents(result).len() == 0,
        is_buffer_size(min_size, buffer_made_for(result) as usize),
        min_size <= buffer_made_for(result) <= isize::MAX,
{
    with_capacity(buffer_size(min_size))
}

/// Get a small buffer (4KB) - optimized for common case.
pub fn get_small_buffer() -> (result: bytes::BytesMut)
    ensures
        buffer_contents(result).len() == 0,
        buffer_made_for(result) == 4096,
{
    let result = get_buffer(4096);
    proof {
        assert(size_classes()[1] == 4096);
        lemma_standard_size(4096, buffer_made_for(result) as usize);
    }
    result
}

/// Get a medium buffer (16KB) - good for most transfers.
pub fn get_medium_buffer() -> (result: bytes::BytesMut)
    ensures
        buffer_contents(result).len() == 0,
        buffer_made_for(result) == 16384,
{
    let result = get_buffer(16384);
    proof {
        assert(size_classes()[3] == 16384);
        lemma_standard_size(16384, buffer_made_for(result) as usize);
    }
    result
}

/// Get a large buffer (64KB) - for high-throughput scenarios.
pub fn get_large_buffer() -> (result: bytes::BytesMut)
    ensures
        buffer_contents(result).len() == 0,
        buffer_made_for(result) == 65536,
{
    let result = get_buffer(65536);
    proof {
        assert(size_classes()[5] == 65536);
        lemma_standard_size(65536, buffer_made_for(result) as usize);
    }
    result
}

/// A buffer has the least standard size that is large enough, or less than twice what is asked for.
pub proof fn law_buffers_are_large_enough(min_size: usize, size: usize)
    requires
        is_buffer_size(min_size, size),
    ensures
        min_size <= size,
        min_size <= 1024 ==> size == 1024,
        1024 < min_size <= 4096 ==> size == 4096,
        4096 < min_size <= 8192 ==> size == 8192,
        8192 < min_size <= 16384 ==> size == 16384,
        16384 < min_size <= 32768 ==> size == 32768,
        32768 < min_size <= 65536 ==> size == 65536,
        min_size > 65536 ==> size < 2 * min_size && exists|k: nat| size == #[trigger] pow2(k),
{
    let s = size_classes();
    assert(s[0] == 1024 && s[1] == 4096 && s[2] == 8192 && s[3] == 16384 && s[4] == 32768 && s[5]
        == 65536);
    assert(s.contains(1024) && s.contains(4096) && s.contains(8192) && s.contains(16384)
        && s.contains(32768) && s.contains(65536));
}

} // verus!
