//! What this library assumes of the arrow crate: the types it carries, names
//! for what their values hold, and the calls it makes. Nothing here is
//! proved; each contract states what arrow's source shows.

use vstd::prelude::*;
use arrow::array::ArrayData;
use arrow::buffer::Buffer;
use arrow::datatypes::DataType;
use arrow::error::ArrowError;

verus! {

/// `arrow::buffer::Buffer`: a window into a reference-counted allocation.
#[verifier::external_type_specification]
#[verifier::external_body]
pub struct ExBuffer(Buffer);

/// `arrow::array::ArrayData`: the buffers and the length of one array.
#[verifier::external_type_specification]
#[verifier::external_body]
pub struct ExArrayData(ArrayData);

/// `arrow::error::ArrowError`: why arrow refused a request.
#[verifier::external_type_specification]
#[verifier::external_body]
pub struct ExArrowError(ArrowError);

/// The bytes that a buffer shows: what `Buffer::as_slice` returns.
pub uninterp spec fn buffer_bytes(buffer: Buffer) -> Seq<u8>;

/// The bytes of each buffer that `ArrayData::buffers` hands out, in its order.
pub uninterp spec fn array_buffers(array: ArrayData) -> Seq<Seq<u8>>;

/// `ArrayData::len`: the number of elements that the array declares.
pub uninterp spec fn array_len(array: ArrayData) -> nat;

/// `Buffer::as_ptr`, as a number: where the first byte that the buffer shows
/// lies in memory. Nothing is claimed of it.
#[verifier::external_body]
pub(crate) fn buffer_address(buffer: &Buffer) -> (address: usize) {
    buffer.as_ptr() as usize
}

/// `Buffer::from_vec` takes the vector's allocation over without copying;
/// the buffer shows the vector's bytes.
#[verifier::external_body]
pub(crate) fn buffer_from_vec(data: Vec<u8>) -> (buffer: Buffer)
    ensures
        buffer_bytes(buffer) == data@,
{
    Buffer::from_vec(data)
}

/// `Buffer::slice_with_length` gives a buffer over the same allocation that
/// shows `length` bytes from `offset` on. It panics where `offset + length`
/// passes the end of the buffer, which `requires` leaves out.
#[verifier::external_body]
pub(crate) fn buffer_slice(buffer: &Buffer, offset: usize, length: usize) -> (window: Buffer)
    requires
        offset + length <= buffer_bytes(*buffer).len(),
    ensures
        buffer_bytes(window) == buffer_bytes(*buffer).subrange(
            offset as int,
            offset + length,
        ),
{
    buffer.slice_with_length(offset, length)
}

/// `ArrayData::try_new` for an array of `len` unsigned bytes over one buffer,
/// without nulls, offset or children. Its validation accepts the array if
/// and only if the buffer holds at least `len` bytes; the array then has
/// that one buffer and declares `len` elements.
#[verifier::external_body]
pub(crate) fn byte_array(buffer: Buffer, len: usize) -> (made: Result<ArrayData, ArrowError>)
    ensures
        made is Ok <==> len <= buffer_bytes(buffer).len(),
        made is Ok ==> array_buffers(made->Ok_0) == seq![buffer_bytes(buffer)],
        made is Ok ==> array_len(made->Ok_0) == len,
{
    ArrayData::try_new(DataType::UInt8, len, None, 0, vec![buffer], vec![])
}

/// `ArrayData::len`: the number of elements that the array declares.
#[verifier::external_body]
pub(crate) fn array_length(array: &ArrayData) -> (len: usize)
    ensures
        len == array_len(*array),
{
    array.len()
}

/// `Buffers::len` on `ArrayData::buffers`: how many buffers are handed out.
#[verifier::external_body]
pub(crate) fn array_buffer_count(array: &ArrayData) -> (count: usize)
    ensures
        count == array_buffers(*array).len(),
{
    array.buffers().len()
}

/// `Buffer::as_slice` on the buffer at position `i` of `ArrayData::buffers`,
/// copied into a vector. The index panics where no such buffer is, which
/// `requires` leaves out.
#[verifier::external_body]
pub(crate) fn array_buffer_bytes(array: &ArrayData, i: usize) -> (bytes: Vec<u8>)
    requires
        i < array_buffers(*array).len(),
    ensures
        bytes@ == array_buffers(*array)[i as int],
{
    array.buffers()[i].as_slice().to_vec()
}

} // verus!
