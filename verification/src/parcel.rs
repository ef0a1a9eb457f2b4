//! Parcels: a byte buffer with a cursor and a table of the offsets at which
//! flat objects lie. An owned parcel grows as it is written; a borrowed
//! parcel reads a buffer that the driver lent and must be given back.

use crate::codec::{
    decode_string16, encode_string16, get_i32, get_u32, get_u64, i32_at, lemma_ascii_round_trip,
    native_i32_bytes, overwrite, pad_size, padded, put_i32, put_u32, put_u64, put_zeros,
    readable, spec_pad_size, u32_at, u64_at, utf16le_decoded, write_at, zeros,
};
use crate::connection::{acquired, acquired_proxy, has_room, BinderConnection, Handle};
use crate::error::BinderErrorKind;
use crate::sys::{
    BinderType, CommandProtocol, FlatBinderObject, FLAT_BINDER_DEFAULT_FLAGS,
    FLAT_BINDER_OBJECT_SIZE,
};
use crate::wire::{is_ascii_text, native_u32_bytes, native_u64_bytes, utf16_units, utf16le_bytes};
use vstd::prelude::*;
use vstd::slice::{slice_subrange, slice_to_vec};

verus! {

/// Whether `offsets` can be the object table of a buffer of `len` bytes:
/// strictly increasing, each offset on a four-byte boundary and with room
/// for a flat object behind it.
pub open spec fn table_ok(len: int, offsets: Seq<usize>) -> bool {
    &&& forall|i: int, j: int| 0 <= i < j < offsets.len() ==> offsets[i] < offsets[j]
    &&& forall|i: int|
        0 <= i < offsets.len() ==> #[trigger] offsets[i] % 4 == 0 && offsets[i]
            + FLAT_BINDER_OBJECT_SIZE <= len
}

/// Whether a buffer of `len` bytes is short enough for a cursor behind its
/// padded end to be a `usize`.
pub open spec fn len_ok(len: int) -> bool {
    len + 3 <= usize::MAX
}

/// What reading a string at `pos` gives: the text and the position behind
/// it, or the error. A string is its count of 16-bit units, the units, one
/// unit of zero, and padding; a negative count stands for no string.
pub open spec fn string16_at(bytes: Seq<u8>, pos: int) -> Result<(Seq<char>, int), BinderErrorKind> {
    if !readable(bytes, pos, 4) {
        Err(BinderErrorKind::NotEnoughData)
    } else {
        let count = i32_at(bytes, pos) as int;
        if count < 0 {
            Err(BinderErrorKind::UnexpectedNull)
        } else if !readable(bytes, pos + 4, 2 * (count + 1)) {
            Err(BinderErrorKind::NotEnoughData)
        } else {
            Ok(
                (
                    utf16le_decoded(bytes.subrange(pos + 4, pos + 4 + 2 * count)),
                    pos + 4 + spec_pad_size(2 * (count + 1)),
                ),
            )
        }
    }
}

/// The bytes that a string takes in a parcel: four for the count, two for
/// each 16-bit unit and for the unit of zero behind them, and the padding.
pub open spec fn string16_room(text: Seq<char>) -> int {
    4 + spec_pad_size(2 * (utf16_units(text) + 1) as int)
}

/// The bytes that the string takes in a parcel, where its count of units
/// fits an `i32` and the bytes can be counted in a `usize`.
pub fn measure_string16(s: &str) -> (r: Option<usize>)
    ensures
        match r {
            Some(room) => utf16_units(s@) <= i32::MAX && room == string16_room(s@),
            None => utf16_units(s@) > i32::MAX || string16_room(s@) > usize::MAX,
        },
{
    let units: usize = encode_string16(s).len() / 2;
    if units > i32::MAX as usize || units > (usize::MAX - 5) / 2 {
        return None;
    }
    let body: usize = pad_size(2 * (units + 1));
    if body > usize::MAX - 4 {
        return None;
    }
    Some(4 + body)
}

/// A string that was written at `pos` is read there: the count, and behind
/// it the text that the bytes of its units stand for.
pub proof fn lemma_string16_written(data: Seq<u8>, pos: int, count: i32, units: Seq<u8>)
    requires
        0 <= pos,
        0 <= count,
        units.len() == 2 * count,
        native_i32_bytes(count).len() == 4,
        i32_at(overwrite(data, pos, native_i32_bytes(count)), pos) == count,
    ensures
        string16_at(
            overwrite(
                overwrite(data, pos, native_i32_bytes(count)),
                pos + 4,
                padded(units + zeros(2)),
            ),
            pos,
        ) == Ok::<(Seq<char>, int), BinderErrorKind>(
            (utf16le_decoded(units), pos + 4 + spec_pad_size(2 * (count + 1))),
        ),
{
    let head = native_i32_bytes(count);
    let body = padded(units + zeros(2));
    let d1 = overwrite(data, pos, head);
    let d2 = overwrite(d1, pos + 4, body);
    assert(body.len() == spec_pad_size(2 * (count + 1)));
    assert(d2.subrange(pos, pos + 4) =~= d1.subrange(pos, pos + 4));
    assert(d2.subrange(pos + 4, pos + 4 + 2 * count) =~= units);
}

/// What reading a flat object at `pos` gives. The object must be one that
/// the table lists, unless the reader accepts a null object and it is one.
pub open spec fn object_at(
    bytes: Seq<u8>,
    offsets: Seq<usize>,
    pos: int,
    null_metadata: bool,
) -> Result<FlatBinderObject, BinderErrorKind> {
    if !readable(bytes, pos, FLAT_BINDER_OBJECT_SIZE as int) {
        Err(BinderErrorKind::NotEnoughData)
    } else {
        let obj = FlatBinderObject::at(bytes, pos);
        if (null_metadata && obj.spec_is_null()) || offsets.contains(pos as usize) {
            Ok(obj)
        } else {
            Err(BinderErrorKind::BadType)
        }
    }
}

/// What reading a strong Binder at `pos` gives: the handle of the remote
/// object, or nothing where the object is null. Only a handle can be read:
/// a local Binder is refused.
pub open spec fn strong_binder_at(bytes: Seq<u8>, offsets: Seq<usize>, pos: int) -> Result<
    Option<u32>,
    BinderErrorKind,
> {
    match object_at(bytes, offsets, pos, true) {
        Err(e) => Err(e),
        Ok(obj) => if obj.spec_is_null() {
            Ok(None)
        } else if obj.type_ == BinderType::Handle.spec_tag() {
            Ok(Some(obj.target as u32))
        } else {
            Err(BinderErrorKind::BadType)
        },
    }
}

/// Whether `pos` is in the table.
pub fn table_contains(offsets: &[usize], pos: usize) -> (found: bool)
    requires
        forall|i: int, j: int| 0 <= i < j < offsets@.len() ==> offsets@[i] < offsets@[j],
    ensures
        found == offsets@.contains(pos),
{
    let mut lo: usize = 0;
    let mut hi: usize = offsets.len();
    while lo < hi
        invariant
            lo <= hi <= offsets@.len(),
            forall|i: int, j: int| 0 <= i < j < offsets@.len() ==> offsets@[i] < offsets@[j],
            forall|i: int| 0 <= i < lo ==> offsets@[i] < pos,
            forall|i: int| hi <= i < offsets@.len() ==> offsets@[i] > pos,
        decreases hi - lo,
    {
        let mid: usize = lo + (hi - lo) / 2;
        let at_mid: usize = offsets[mid];
        if at_mid == pos {
            return true;
        } else if at_mid < pos {
            lo = mid + 1;
        } else {
            hi = mid;
        }
    }
    false
}

/// Something that is read at a cursor.
pub trait Reader {
    /// The bytes.
    spec fn bytes(&self) -> Seq<u8>;

    /// Where the next read starts.
    spec fn cursor(&self) -> int;

    fn position(&self) -> (p: u64)
        ensures
            p == self.cursor(),
            p <= usize::MAX,
    ;
}

/// The readers of a parcel, over what the two kinds of parcel share: the
/// bytes, the cursor and the object table. A read that fails leaves the
/// parcel as it was, with one exception: a flat object that the table does
/// not list is refused after the cursor has passed it.
pub trait Parcel: Reader + Sized {
    /// The object table.
    spec fn offsets(&self) -> Seq<usize>;

    /// The parcel's invariant.
    spec fn wf(&self) -> bool;

    /// This parcel with its cursor at `cursor` and nothing else changed.
    spec fn at(&self, cursor: int) -> Self;

    proof fn lemma_at(&self, cursor: int)
        requires
            0 <= cursor <= usize::MAX,
        ensures
            self.at(cursor).bytes() == self.bytes(),
            self.at(cursor).cursor() == cursor,
            self.at(cursor).offsets() == self.offsets(),
            self.at(cursor).wf() == self.wf(),
            cursor == self.cursor() ==> self.at(cursor) == *self,
    ;

    proof fn lemma_wf(&self)
        requires
            self.wf(),
        ensures
            len_ok(self.bytes().len() as int),
            table_ok(self.bytes().len() as int, self.offsets()),
    ;

    fn objects(&self) -> (table: &[usize])
        ensures
            table@ == self.offsets(),
    ;

    fn as_data_slice(&self) -> (data: &[u8])
        ensures
            data@ == self.bytes(),
    ;

    /// Moves the cursor.
    fn seek(&mut self, pos: usize)
        ensures
            *final(self) == old(self).at(pos as int),
    ;

    /// Whether the cursor stands before the end of the data.
    fn has_data(&self) -> (r: bool)
        ensures
            r == (self.cursor() < self.bytes().len()),
    {
        let pos: u64 = self.position();
        let data = self.as_data_slice();
        (pos as usize) < data.len()
    }

    /// Reads `len` bytes and skips the padding behind them.
    fn read_buf(&mut self, len: usize) -> (r: Result<Vec<u8>, BinderErrorKind>)
        requires
            old(self).wf(),
        ensures
            match r {
                Ok(buf) => readable(old(self).bytes(), old(self).cursor(), len as int) && buf@
                    == old(self).bytes().subrange(old(self).cursor(), old(self).cursor() + len)
                    && *final(self) == old(self).at(
                    old(self).cursor() + spec_pad_size(len as int),
                ) && final(self).cursor() == old(self).cursor() + spec_pad_size(len as int),
                Err(e) => e == BinderErrorKind::NotEnoughData && !readable(
                    old(self).bytes(),
                    old(self).cursor(),
                    len as int,
                ) && *final(self) == *old(self),
            },
            final(self).wf(),
            final(self).bytes() == old(self).bytes(),
            final(self).offsets() == old(self).offsets(),
            old(self).cursor() % 4 == 0 ==> final(self).cursor() % 4 == 0,
    {
        let pos: usize = self.position() as usize;
        let data = self.as_data_slice();
        proof {
            self.lemma_wf();
        }
        if len > data.len() || pos > data.len() - len {
            return Err(BinderErrorKind::NotEnoughData);
        }
        let buf = slice_to_vec(slice_subrange(data, pos, pos + len));
        let next: usize = pos + pad_size(len);
        proof {
            self.lemma_at(next as int);
        }
        self.seek(next);
        Ok(buf)
    }

    /// Reads an `i32`.
    fn read_i32(&mut self) -> (r: Result<i32, BinderErrorKind>)
        requires
            old(self).wf(),
        ensures
            match r {
                Ok(value) => readable(old(self).bytes(), old(self).cursor(), 4) && value == i32_at(
                    old(self).bytes(),
                    old(self).cursor(),
                ) && *final(self) == old(self).at(old(self).cursor() + 4) && final(self).cursor()
                    == old(self).cursor() + 4,
                Err(e) => e == BinderErrorKind::NotEnoughData && !readable(
                    old(self).bytes(),
                    old(self).cursor(),
                    4,
                ) && *final(self) == *old(self),
            },
            final(self).wf(),
            final(self).bytes() == old(self).bytes(),
            final(self).offsets() == old(self).offsets(),
            old(self).cursor() % 4 == 0 ==> final(self).cursor() % 4 == 0,
    {
        let pos: usize = self.position() as usize;
        let data = self.as_data_slice();
        proof {
            self.lemma_wf();
        }
        if data.len() < 4 || pos > data.len() - 4 {
            return Err(BinderErrorKind::NotEnoughData);
        }
        let value: i32 = get_i32(data, pos);
        proof {
            self.lemma_at(pos + 4);
        }
        self.seek(pos + 4);
        Ok(value)
    }

    /// Reads a `u32`.
    fn read_u32(&mut self) -> (r: Result<u32, BinderErrorKind>)
        requires
            old(self).wf(),
        ensures
            match r {
                Ok(value) => readable(old(self).bytes(), old(self).cursor(), 4) && value == u32_at(
                    old(self).bytes(),
                    old(self).cursor(),
                ) && *final(self) == old(self).at(old(self).cursor() + 4) && final(self).cursor()
                    == old(self).cursor() + 4,
                Err(e) => e == BinderErrorKind::NotEnoughData && !readable(
                    old(self).bytes(),
                    old(self).cursor(),
                    4,
                ) && *final(self) == *old(self),
            },
            final(self).wf(),
            final(self).bytes() == old(self).bytes(),
            final(self).offsets() == old(self).offsets(),
            old(self).cursor() % 4 == 0 ==> final(self).cursor() % 4 == 0,
    {
        let pos: usize = self.position() as usize;
        let data = self.as_data_slice();
        proof {
            self.lemma_wf();
        }
        if data.len() < 4 || pos > data.len() - 4 {
            return Err(BinderErrorKind::NotEnoughData);
        }
        let value: u32 = get_u32(data, pos);
        proof {
            self.lemma_at(pos + 4);
        }
        self.seek(pos + 4);
        Ok(value)
    }

    /// Reads a pointer: eight bytes.
    fn read_pointer(&mut self) -> (r: Result<u64, BinderErrorKind>)
        requires
            old(self).wf(),
        ensures
            match r {
                Ok(value) => readable(old(self).bytes(), old(self).cursor(), 8) && value == u64_at(
                    old(self).bytes(),
                    old(self).cursor(),
                ) && *final(self) == old(self).at(old(self).cursor() + 8) && final(self).cursor()
                    == old(self).cursor() + 8,
                Err(e) => e == BinderErrorKind::NotEnoughData && !readable(
                    old(self).bytes(),
                    old(self).cursor(),
                    8,
                ) && *final(self) == *old(self),
            },
            final(self).wf(),
            final(self).bytes() == old(self).bytes(),
            final(self).offsets() == old(self).offsets(),
            old(self).cursor() % 4 == 0 ==> final(self).cursor() % 4 == 0,
    {
        let pos: usize = self.position() as usize;
        let data = self.as_data_slice();
        proof {
            self.lemma_wf();
        }
        if data.len() < 8 || pos > data.len() - 8 {
            return Err(BinderErrorKind::NotEnoughData);
        }
        let value: u64 = get_u64(data, pos);
        proof {
            self.lemma_at(pos + 8);
        }
        self.seek(pos + 8);
        Ok(value)
    }

    /// Reads a string: its count of 16-bit units, the units in UTF-16LE, the
    /// unit of zero that ends it, and the padding.
    fn read_string16(&mut self) -> (r: Result<String, BinderErrorKind>)
        requires
            old(self).wf(),
        ensures
            match (r, string16_at(old(self).bytes(), old(self).cursor())) {
                (Ok(text), Ok((expected, next))) => text@ == expected && *final(self)
                    == old(self).at(next) && final(self).cursor() == next,
                (Err(e), Err(expected)) => e == expected && *final(self) == *old(self),
                _ => false,
            },
            final(self).wf(),
            final(self).bytes() == old(self).bytes(),
            final(self).offsets() == old(self).offsets(),
            old(self).cursor() % 4 == 0 ==> final(self).cursor() % 4 == 0,
    {
        let pos: usize = self.position() as usize;
        let data = self.as_data_slice();
        proof {
            self.lemma_wf();
        }
        if data.len() < 4 || pos > data.len() - 4 {
            return Err(BinderErrorKind::NotEnoughData);
        }
        let count: i32 = get_i32(data, pos);
        if count < 0 {
            return Err(BinderErrorKind::UnexpectedNull);
        }
        let body: u64 = 2 * (count as u64 + 1);
        let room: usize = data.len() - pos - 4;
        if body > room as u64 {
            return Err(BinderErrorKind::NotEnoughData);
        }
        let body: usize = body as usize;
        let text = decode_string16(slice_subrange(data, pos + 4, pos + 4 + (body - 2)));
        let next: usize = pos + 4 + pad_size(body);
        proof {
            self.lemma_at(next as int);
        }
        self.seek(next);
        Ok(text)
    }

    /// Reads a flat object. With `null_metadata` a null object is taken as
    /// it is; any other object must lie at an offset that the table lists.
    fn read_object(&mut self, null_metadata: bool) -> (r: Result<FlatBinderObject, BinderErrorKind>)
        requires
            old(self).wf(),
        ensures
            r == object_at(old(self).bytes(), old(self).offsets(), old(self).cursor(), null_metadata),
            r is Ok ==> r->Ok_0.wf(),
            *final(self) == (if readable(
                old(self).bytes(),
                old(self).cursor(),
                FLAT_BINDER_OBJECT_SIZE as int,
            ) {
                old(self).at(old(self).cursor() + FLAT_BINDER_OBJECT_SIZE)
            } else {
                *old(self)
            }),
            final(self).cursor() == (if readable(
                old(self).bytes(),
                old(self).cursor(),
                FLAT_BINDER_OBJECT_SIZE as int,
            ) {
                old(self).cursor() + FLAT_BINDER_OBJECT_SIZE
            } else {
                old(self).cursor()
            }),
            final(self).wf(),
            final(self).bytes() == old(self).bytes(),
            final(self).offsets() == old(self).offsets(),
            old(self).cursor() % 4 == 0 ==> final(self).cursor() % 4 == 0,
    {
        let pos: usize = self.position() as usize;
        let data = self.as_data_slice();
        proof {
            self.lemma_wf();
        }
        if data.len() < FLAT_BINDER_OBJECT_SIZE || pos > data.len() - FLAT_BINDER_OBJECT_SIZE {
            return Err(BinderErrorKind::NotEnoughData);
        }
        let obj = FlatBinderObject::decode(data, pos);
        let listed: bool = table_contains(self.objects(), pos);
        proof {
            self.lemma_at(pos + FLAT_BINDER_OBJECT_SIZE);
        }
        self.seek(pos + FLAT_BINDER_OBJECT_SIZE);
        if (null_metadata && obj.is_null()) || listed {
            Ok(obj)
        } else {
            Err(BinderErrorKind::BadType)
        }
    }

    /// Reads a strong Binder: a flat object that is null, or names a remote
    /// object by its handle, for which the connection gives a reference.
    /// Where the connection's counters have no room for the reference, the
    /// read fails with `NoMemory`.
    fn read_strong_binder(&mut self, conn: &mut BinderConnection) -> (r: Result<
        Option<Handle>,
        BinderErrorKind,
    >)
        requires
            old(self).wf(),
            old(conn).wf(),
        ensures
            match (r, strong_binder_at(old(self).bytes(), old(self).offsets(), old(self).cursor())) {
                (Ok(Some(proxy)), Ok(Some(handle))) => has_room(old(conn)@, handle) && proxy@
                    == acquired_proxy(old(conn)@, handle) && final(conn)@ == acquired(
                    old(conn)@,
                    handle,
                ),
                (Ok(None), Ok(None)) => final(conn)@ == old(conn)@,
                (Err(e), Err(expected)) => e == expected && final(conn)@ == old(conn)@,
                (Err(e), Ok(Some(handle))) => e == BinderErrorKind::NoMemory && !has_room(
                    old(conn)@,
                    handle,
                ) && final(conn)@ == old(conn)@,
                _ => false,
            },
            *final(self) == (if readable(
                old(self).bytes(),
                old(self).cursor(),
                FLAT_BINDER_OBJECT_SIZE as int,
            ) {
                old(self).at(old(self).cursor() + FLAT_BINDER_OBJECT_SIZE)
            } else {
                *old(self)
            }),
            final(self).cursor() == (if readable(
                old(self).bytes(),
                old(self).cursor(),
                FLAT_BINDER_OBJECT_SIZE as int,
            ) {
                old(self).cursor() + FLAT_BINDER_OBJECT_SIZE
            } else {
                old(self).cursor()
            }),
            final(self).wf(),
            final(conn).wf(),
            final(self).bytes() == old(self).bytes(),
            final(self).offsets() == old(self).offsets(),
            old(self).cursor() % 4 == 0 ==> final(self).cursor() % 4 == 0,
    {
        match self.read_object(true) {
            Err(e) => Err(e),
            Ok(obj) => {
                if obj.is_null() {
                    Ok(None)
                } else if obj.type_ == BinderType::Handle.tag() {
                    let handle: u32 = obj.target as u32;
                    if conn.can_acquire(handle) {
                        Ok(Some(conn.get_strong_proxy_for_handle(handle)))
                    } else {
                        Err(BinderErrorKind::NoMemory)
                    }
                } else {
                    Err(BinderErrorKind::BadType)
                }
            },
        }
    }
}

/// What an owned parcel holds.
pub struct OwnedParcelView {
    pub data: Seq<u8>,
    pub position: int,
    pub objects: Seq<usize>,
    /// Whether a file descriptor was written; `None` where that is not known.
    pub has_fds: Option<bool>,
    /// Whether file descriptors may be written.
    pub allow_fds: bool,
    /// The size of the window that the parcel offers to a driver that fills it.
    pub capacity: int,
}

/// A parcel after `bytes` were written at its cursor: they lie over what was
/// there, the cursor stands behind them, and the capacity has grown with the
/// data.
pub open spec fn written(v: OwnedParcelView, bytes: Seq<u8>) -> OwnedParcelView {
    let data = overwrite(v.data, v.position, bytes);
    OwnedParcelView {
        data,
        position: v.position + bytes.len(),
        capacity: if data.len() > v.capacity {
            data.len() as int
        } else {
            v.capacity
        },
        ..v
    }
}

/// A parcel after a string was written at its cursor: the count of its
/// 16-bit units, the text in UTF-16LE with a unit of zero behind it, and the
/// padding.
pub open spec fn with_string16(v: OwnedParcelView, text: Seq<char>) -> OwnedParcelView {
    written(
        written(v, native_i32_bytes(utf16_units(text) as i32)),
        padded(utf16le_bytes(text) + zeros(2)),
    )
}

/// A parcel after an interface token was written at its cursor: the
/// strict-mode policy, which is zero, and the descriptor as a string.
pub open spec fn with_token(v: OwnedParcelView, interface: Seq<char>) -> OwnedParcelView {
    with_string16(written(v, native_i32_bytes(0)), interface)
}

/// The parcel that `OwnedParcel::new` makes.
pub open spec fn fresh() -> OwnedParcelView {
    OwnedParcelView {
        data: Seq::empty(),
        position: 0,
        objects: Seq::empty(),
        has_fds: Some(false),
        allow_fds: true,
        capacity: 256,
    }
}

/// Whether `n` more bytes can be written at the parcel's cursor without a
/// position leaving the range of `usize`.
pub open spec fn fits(v: OwnedParcelView, n: int) -> bool {
    v.position + n + 3 <= usize::MAX
}

/// Bytes with their padding take a multiple of four, begin with the bytes,
/// and end in zero bytes.
pub proof fn lemma_padded(bytes: Seq<u8>)
    ensures
        padded(bytes).len() == spec_pad_size(bytes.len() as int),
        padded(bytes).len() % 4 == 0,
        bytes.len() <= padded(bytes).len() < bytes.len() + 4,
        padded(bytes).subrange(0, bytes.len() as int) == bytes,
        forall|i: int| bytes.len() <= i < padded(bytes).len() ==> padded(bytes)[i] == 0,
{
    assert(padded(bytes).subrange(0, bytes.len() as int) =~= bytes);
}

/// Whatever is written into a parcel at its cursor, the cursor then stands
/// behind it, the data reach at least as far, what was written is what lies
/// between the old cursor and the new, and nothing else of the parcel has
/// changed. A cursor on a four-byte boundary stays on one where the bytes
/// are a multiple of four, and a cursor at the end of the data stays at the
/// end.
pub proof fn lemma_written(v: OwnedParcelView, bytes: Seq<u8>)
    requires
        0 <= v.position,
    ensures
        written(v, bytes).position == v.position + bytes.len(),
        written(v, bytes).data.len() == (if v.data.len() >= v.position + bytes.len() {
            v.data.len() as int
        } else {
            v.position + bytes.len()
        }),
        written(v, bytes).data.subrange(v.position, v.position + bytes.len()) == bytes,
        written(v, bytes).objects == v.objects,
        written(v, bytes).has_fds == v.has_fds,
        written(v, bytes).allow_fds == v.allow_fds,
        v.position % 4 == 0 && bytes.len() % 4 == 0 ==> written(v, bytes).position % 4 == 0,
        v.position >= v.data.len() ==> written(v, bytes).data.len() == written(
            v,
            bytes,
        ).position,
{
    lemma_overwrite(v.data, v.position, bytes);
}

/// Bytes that were written with their padding are read back where they were
/// written: the same bytes, with the cursor behind the padding, at the end
/// of the data where they were written at its end.
pub proof fn lemma_buf_round_trip(v: OwnedParcelView, buf: Seq<u8>)
    requires
        0 <= v.position,
    ensures
        readable(written(v, padded(buf)).data, v.position, buf.len() as int),
        written(v, padded(buf)).data.subrange(v.position, v.position + buf.len()) == buf,
        written(v, padded(buf)).position == v.position + spec_pad_size(buf.len() as int),
        v.position % 4 == 0 ==> written(v, padded(buf)).position % 4 == 0,
        v.position >= v.data.len() ==> written(v, padded(buf)).data.len() == written(
            v,
            padded(buf),
        ).position,
{
    lemma_padded(buf);
    lemma_written(v, padded(buf));
    let w = written(v, padded(buf)).data;
    assert(w.subrange(v.position, v.position + buf.len()) =~= buf) by {
        assert(w.subrange(v.position, v.position + padded(buf).len()) == padded(buf));
        assert forall|i: int| 0 <= i < buf.len() implies w[v.position + i] == buf[i] by {
            assert(w.subrange(v.position, v.position + padded(buf).len())[i] == padded(buf)[i]);
        }
    }
}

/// What was written is what is read there, and what lay before it is kept.
pub proof fn lemma_overwrite(data: Seq<u8>, pos: int, bytes: Seq<u8>)
    requires
        0 <= pos,
    ensures
        overwrite(data, pos, bytes).len() >= data.len(),
        overwrite(data, pos, bytes).len() >= pos + bytes.len(),
        overwrite(data, pos, bytes).subrange(pos, pos + bytes.len()) == bytes,
        forall|a: int, b: int|
            0 <= a <= b <= pos && b <= data.len() ==> #[trigger] overwrite(
                data,
                pos,
                bytes,
            ).subrange(a, b) == data.subrange(a, b),
{
    let w = overwrite(data, pos, bytes);
    assert(w.subrange(pos, pos + bytes.len()) =~= bytes);
    assert forall|a: int, b: int| 0 <= a <= b <= pos && b <= data.len() implies #[trigger] w.subrange(
        a,
        b,
    ) == data.subrange(a, b) by {
        assert(w.subrange(a, b) =~= data.subrange(a, b));
    }
}

/// A parcel that owns its buffer: the kind that is written, sent, and filled
/// by the driver.
pub struct OwnedParcel {
    data: Vec<u8>,
    pos: usize,
    objects: Vec<usize>,
    has_fds: Option<bool>,
    allow_fds: bool,
    capacity: usize,
}

impl View for OwnedParcel {
    type V = OwnedParcelView;

    closed spec fn view(&self) -> OwnedParcelView {
        OwnedParcelView {
            data: self.data@,
            position: self.pos as int,
            objects: self.objects@,
            has_fds: self.has_fds,
            allow_fds: self.allow_fds,
            capacity: self.capacity as int,
        }
    }
}

impl Reader for OwnedParcel {
    open spec fn bytes(&self) -> Seq<u8> {
        self@.data
    }

    open spec fn cursor(&self) -> int {
        self@.position
    }

    fn position(&self) -> (p: u64) {
        self.pos as u64
    }
}

impl Parcel for OwnedParcel {
    open spec fn offsets(&self) -> Seq<usize> {
        self@.objects
    }

    open spec fn wf(&self) -> bool {
        &&& len_ok(self@.data.len() as int)
        &&& table_ok(self@.data.len() as int, self@.objects)
        &&& self@.data.len() <= self@.capacity <= usize::MAX
        &&& 0 <= self@.position <= usize::MAX
    }

    closed spec fn at(&self, cursor: int) -> Self {
        OwnedParcel { pos: cursor as usize, ..*self }
    }

    proof fn lemma_at(&self, cursor: int) {
    }

    proof fn lemma_wf(&self) {
    }

    fn objects(&self) -> (table: &[usize]) {
        self.objects.as_slice()
    }

    fn as_data_slice(&self) -> (data: &[u8]) {
        self.data.as_slice()
    }

    fn seek(&mut self, pos: usize) {
        self.pos = pos;
    }
}

impl OwnedParcel {
    /// A parcel moved to another cursor differs in its cursor alone.
    pub proof fn lemma_at_view(&self, cursor: int)
        requires
            0 <= cursor <= usize::MAX,
        ensures
            self.at(cursor)@ == (OwnedParcelView { position: cursor, ..self@ }),
    {
    }

    /// An empty parcel that accepts file descriptors and offers the driver a
    /// window of 256 bytes.
    pub fn new() -> (parcel: OwnedParcel)
        ensures
            parcel@ == fresh(),
            parcel.wf(),
    {
        OwnedParcel {
            data: Vec::with_capacity(256),
            pos: 0,
            objects: Vec::with_capacity(16),
            has_fds: Some(false),
            allow_fds: true,
            capacity: 256,
        }
    }

    /// The length of the data.
    pub fn len(&self) -> (n: usize)
        ensures
            n == self@.data.len(),
    {
        self.data.len()
    }

    /// The size of the window that the parcel offers to a driver.
    pub fn capacity(&self) -> (n: usize)
        ensures
            n == self@.capacity,
    {
        self.capacity
    }

    /// Whether a file descriptor was written, where that is known.
    pub fn has_fds(&self) -> (r: Option<bool>)
        ensures
            r == self@.has_fds,
    {
        self.has_fds
    }

    /// Whether file descriptors may be written.
    pub fn allow_fds(&self) -> (r: bool)
        ensures
            r == self@.allow_fds,
    {
        self.allow_fds
    }

    /// Opens or closes the parcel for file descriptors.
    pub fn set_allow_fds(&mut self, allow: bool)
        ensures
            final(self)@ == (OwnedParcelView { allow_fds: allow, ..old(self)@ }),
    {
        self.allow_fds = allow;
    }

    /// Sets the length of the data, as after the driver has written into the
    /// window: bytes behind the new length are cut off, and a parcel that
    /// grows is filled with zero bytes. The new length lies within the window
    /// and leaves every listed object whole.
    pub fn set_data_len(&mut self, size: usize)
        requires
            old(self).wf(),
            size <= old(self)@.capacity,
            len_ok(size as int),
            table_ok(size as int, old(self)@.objects),
        ensures
            final(self)@ == (OwnedParcelView {
                data: if size <= old(self)@.data.len() {
                    old(self)@.data.take(size as int)
                } else {
                    old(self)@.data + zeros(size - old(self)@.data.len())
                },
                ..old(self)@
            }),
            final(self).wf(),
    {
        if size <= self.data.len() {
            self.data.truncate(size);
        } else {
            let grow: usize = size - self.data.len();
            put_zeros(&mut self.data, grow);
        }
    }

    /// Moves the cursor.
    pub fn set_position(&mut self, pos: usize)
        ensures
            final(self)@ == (OwnedParcelView { position: pos as int, ..old(self)@ }),
            *final(self) == old(self).at(pos as int),
    {
        self.pos = pos;
    }

    /// Empties the parcel: no data, no objects, no file descriptors, the
    /// cursor at the start.
    pub fn clear(&mut self)
        ensures
            final(self)@ == (OwnedParcelView {
                data: Seq::empty(),
                position: 0,
                objects: Seq::empty(),
                has_fds: Some(false),
                ..old(self)@
            }),
            final(self).wf(),
    {
        self.pos = 0;
        self.data.clear();
        self.objects.clear();
        self.has_fds = Some(false);
    }

    /// Takes what the driver wrote into the window that the parcel offered:
    /// the first `consumed` bytes of `window` become the data, with the
    /// cursor at their start. Nothing is known of file descriptors in them.
    /// More bytes than the window holds are refused with `BadValue`.
    pub fn receive(&mut self, window: &[u8], consumed: usize) -> (r: Result<(), BinderErrorKind>)
        requires
            old(self).wf(),
        ensures
            match r {
                Ok(_) => consumed <= window@.len() && len_ok(consumed as int) && final(self)@ == (
                OwnedParcelView {
                    data: window@.take(consumed as int),
                    position: 0,
                    objects: Seq::empty(),
                    has_fds: None,
                    capacity: if consumed > old(self)@.capacity {
                        consumed as int
                    } else {
                        old(self)@.capacity
                    },
                    ..old(self)@
                }),
                Err(e) => e == BinderErrorKind::BadValue && !(consumed <= window@.len() && len_ok(
                    consumed as int,
                )) && final(self)@ == old(self)@,
            },
            final(self).wf(),
    {
        if consumed > window.len() || consumed > usize::MAX - 3 {
            return Err(BinderErrorKind::BadValue);
        }
        self.data = slice_to_vec(slice_subrange(window, 0, consumed));
        self.pos = 0;
        self.objects.clear();
        self.has_fds = None;
        if consumed > self.capacity {
            self.capacity = consumed;
        }
        Ok(())
    }

    /// Whether `n` more bytes can be written at the cursor.
    pub fn can_write(&self, n: usize) -> (r: bool)
        requires
            self.wf(),
        ensures
            r == fits(self@, n as int),
    {
        n <= usize::MAX - 3 && self.pos <= usize::MAX - 3 - n
    }

    /// Writes `bytes` at the cursor.
    fn put(&mut self, bytes: &[u8])
        requires
            old(self).wf(),
            fits(old(self)@, bytes@.len() as int),
        ensures
            final(self)@ == written(old(self)@, bytes@),
            final(self).wf(),
    {
        write_at(&mut self.data, self.pos, bytes);
        self.pos = self.pos + bytes.len();
        if self.data.len() > self.capacity {
            self.capacity = self.data.len();
        }
    }

    /// Writes an `i32` at the cursor. Read there, it is `val` again.
    pub fn write_i32(&mut self, val: i32)
        requires
            old(self).wf(),
            fits(old(self)@, 4),
        ensures
            final(self)@ == written(old(self)@, native_i32_bytes(val)),
            native_i32_bytes(val).len() == 4,
            i32_at(final(self)@.data, old(self)@.position) == val,
            final(self).wf(),
            old(self)@.position % 4 == 0 ==> final(self)@.position % 4 == 0,
    {
        let mut bytes: Vec<u8> = Vec::new();
        put_i32(&mut bytes, val);
        proof {
            assert(bytes@ =~= native_i32_bytes(val));
            lemma_overwrite(self@.data, self@.position, bytes@);
            assert(bytes@.subrange(0, 4) =~= bytes@);
        }
        self.put(bytes.as_slice());
    }

    /// Writes a `u32` at the cursor. Read there, it is `val` again.
    pub fn write_u32(&mut self, val: u32)
        requires
            old(self).wf(),
            fits(old(self)@, 4),
        ensures
            final(self)@ == written(old(self)@, native_u32_bytes(val)),
            native_u32_bytes(val).len() == 4,
            u32_at(final(self)@.data, old(self)@.position) == val,
            final(self).wf(),
            old(self)@.position % 4 == 0 ==> final(self)@.position % 4 == 0,
    {
        let mut bytes: Vec<u8> = Vec::new();
        put_u32(&mut bytes, val);
        proof {
            assert(bytes@ =~= native_u32_bytes(val));
            lemma_overwrite(self@.data, self@.position, bytes@);
        }
        self.put(bytes.as_slice());
    }

    /// Writes a pointer at the cursor: eight bytes. Read there, it is `val`
    /// again.
    pub fn write_pointer(&mut self, val: u64)
        requires
            old(self).wf(),
            fits(old(self)@, 8),
        ensures
            final(self)@ == written(old(self)@, native_u64_bytes(val)),
            native_u64_bytes(val).len() == 8,
            u64_at(final(self)@.data, old(self)@.position) == val,
            final(self).wf(),
            old(self)@.position % 4 == 0 ==> final(self)@.position % 4 == 0,
    {
        let mut bytes: Vec<u8> = Vec::new();
        put_u64(&mut bytes, val);
        proof {
            assert(bytes@ =~= native_u64_bytes(val));
            lemma_overwrite(self@.data, self@.position, bytes@);
        }
        self.put(bytes.as_slice());
    }

    /// Writes `buf` at the cursor, and zero bytes behind it up to the next
    /// multiple of four.
    pub fn write_buf(&mut self, buf: &[u8])
        requires
            old(self).wf(),
            fits(old(self)@, spec_pad_size(buf@.len() as int)),
        ensures
            final(self)@ == written(old(self)@, padded(buf@)),
            final(self)@.position == old(self)@.position + spec_pad_size(buf@.len() as int),
            final(self)@.data.subrange(old(self)@.position, old(self)@.position + buf@.len())
                == buf@,
            final(self).wf(),
            old(self)@.position % 4 == 0 ==> final(self)@.position % 4 == 0,
    {
        let mut framed: Vec<u8> = slice_to_vec(buf);
        let room: usize = pad_size(buf.len());
        put_zeros(&mut framed, room - buf.len());
        proof {
            assert(framed@ =~= padded(buf@));
            lemma_overwrite(self@.data, self@.position, framed@);
            assert(overwrite(self@.data, self@.position, framed@).subrange(
                self@.position,
                self@.position + buf@.len(),
            ) =~= buf@);
        }
        self.put(framed.as_slice());
    }

    /// Whether the string can be written at the cursor: its count of units
    /// fits the `i32` that is written before it, and there is room for it.
    pub fn string16_fits(&self, s: &str) -> (r: bool)
        requires
            self.wf(),
        ensures
            r == (utf16_units(s@) <= i32::MAX && fits(self@, string16_room(s@))),
    {
        match measure_string16(s) {
            Some(room) => self.can_write(room),
            None => false,
        }
    }

    /// Writes a string at the cursor: its count of 16-bit units, the text in
    /// UTF-16LE, a unit of zero, and the padding. An ASCII text is read back
    /// as it was written.
    pub fn write_string16(&mut self, s: &str)
        requires
            old(self).wf(),
            utf16_units(s@) <= i32::MAX,
            fits(old(self)@, string16_room(s@)),
        ensures
            final(self)@ == with_string16(old(self)@, s@),
            final(self)@.position == old(self)@.position + string16_room(s@),
            is_ascii_text(s@) ==> string16_at(final(self)@.data, old(self)@.position) == Ok::<
                (Seq<char>, int),
                BinderErrorKind,
            >((s@, final(self)@.position)),
            final(self).wf(),
            old(self)@.position % 4 == 0 ==> final(self)@.position % 4 == 0,
    {
        let mut encoded: Vec<u8> = encode_string16(s);
        let ghost text_bytes = encoded@;
        let units: usize = encoded.len() / 2;
        let ghost start = self@;
        self.write_i32(units as i32);
        put_zeros(&mut encoded, 2);
        proof {
            assert(encoded@ =~= text_bytes + zeros(2));
        }
        self.write_buf(encoded.as_slice());
        proof {
            lemma_string16_written(start.data, start.position, units as i32, text_bytes);
            if is_ascii_text(s@) {
                lemma_ascii_round_trip(s@);
            }
        }
    }

    /// Writes the token that opens a request to an interface: the
    /// strict-mode policy, which is zero, and the interface's descriptor.
    pub fn write_interface_token(&mut self, interface: &str)
        requires
            old(self).wf(),
            utf16_units(interface@) <= i32::MAX,
            fits(old(self)@, 4 + string16_room(interface@)),
        ensures
            final(self)@ == with_token(old(self)@, interface@),
            final(self)@.position == old(self)@.position + 4 + string16_room(interface@),
            i32_at(final(self)@.data, old(self)@.position) == 0,
            is_ascii_text(interface@) ==> string16_at(final(self)@.data, old(self)@.position + 4)
                == Ok::<(Seq<char>, int), BinderErrorKind>((interface@, final(self)@.position)),
            final(self).wf(),
            old(self)@.position % 4 == 0 ==> final(self)@.position % 4 == 0,
    {
        let ghost start = self@;
        self.write_i32(0);
        let ghost policy = self@;
        self.write_string16(interface);
        proof {
            let p = start.position;
            lemma_overwrite(start.data, p, native_i32_bytes(0));
            lemma_overwrite(policy.data, p + 4, native_i32_bytes(utf16_units(interface@) as i32));
            let d1 = written(policy, native_i32_bytes(utf16_units(interface@) as i32)).data;
            lemma_overwrite(d1, p + 8, padded(utf16le_bytes(interface@) + zeros(2)));
            assert(self@.data.subrange(p, p + 4) == d1.subrange(p, p + 4));
            assert(d1.subrange(p, p + 4) == policy.data.subrange(p, p + 4));
        }
    }

    /// Writes a flat object at the cursor and enters the offset at which it
    /// lies in the object table. One kind of record may be left out of the
    /// table: a null object, which has neither target nor cookie and so names
    /// nothing that the driver could translate. It is left out unless
    /// `null_metadata` asks for it too. A file descriptor is refused by a
    /// parcel that does not allow them, and remembered by one that does.
    pub fn write_object(&mut self, val: FlatBinderObject, null_metadata: bool) -> (r: Result<
        (),
        BinderErrorKind,
    >)
        requires
            old(self).wf(),
            val.wf(),
            object_fits(old(self)@, val, null_metadata),
        ensures
            match r {
                Ok(_) => !(val.type_ == BinderType::Fd.spec_tag() && !old(self)@.allow_fds)
                    && final(self)@ == object_written(old(self)@, val, null_metadata)
                    && final(self)@.position == old(self)@.position + FLAT_BINDER_OBJECT_SIZE
                    && FlatBinderObject::at(final(self)@.data, old(self)@.position) == val,
                Err(e) => e == BinderErrorKind::FdsNotAllowed && val.type_
                    == BinderType::Fd.spec_tag() && !old(self)@.allow_fds && final(self)@ == old(
                    self,
                )@,
            },
            final(self).wf(),
            old(self)@.position % 4 == 0 ==> final(self)@.position % 4 == 0,
    {
        if val.type_ == BinderType::Fd.tag() {
            if !self.allow_fds {
                return Err(BinderErrorKind::FdsNotAllowed);
            }
            self.has_fds = Some(true);
        }
        let at: usize = self.pos;
        let mut bytes: Vec<u8> = Vec::new();
        val.encode(&mut bytes);
        proof {
            assert(bytes@ =~= val.bytes());
            lemma_overwrite(self@.data, self@.position, bytes@);
        }
        self.put(bytes.as_slice());
        if null_metadata || !val.is_null() {
            self.objects.push(at);
        }
        proof {
            FlatBinderObject::lemma_at_window(self@.data, at as int);
        }
        Ok(())
    }

    /// Writes a strong Binder at the cursor: a flat object that names the
    /// remote object by its handle, or a null object where there is none.
    /// The object of every reference, whatever its handle, is entered in the
    /// object table at the offset where it was written; the null object is
    /// not.
    pub fn write_strong_binder(&mut self, handle: Option<&Handle>)
        requires
            old(self).wf(),
            object_fits(old(self)@, strong_binder_object(handle), handle is Some),
        ensures
            final(self)@ == object_written(
                old(self)@,
                strong_binder_object(handle),
                handle is Some,
            ),
            final(self)@.position == old(self)@.position + FLAT_BINDER_OBJECT_SIZE,
            FlatBinderObject::at(final(self)@.data, old(self)@.position) == strong_binder_object(
                handle,
            ),
            handle is Some ==> final(self)@.objects == old(self)@.objects.push(
                old(self)@.position as usize,
            ),
            handle is None ==> final(self)@.objects == old(self)@.objects,
            final(self).wf(),
            old(self)@.position % 4 == 0 ==> final(self)@.position % 4 == 0,
    {
        let target: u64 = match handle {
            Some(proxy) => proxy.handle() as u64,
            None => 0,
        };
        let obj = FlatBinderObject {
            type_: BinderType::Handle.tag(),
            flags: FLAT_BINDER_DEFAULT_FLAGS,
            target,
            cookie: 0,
        };
        let _ = self.write_object(obj, handle.is_some());
    }
}

/// Whether writing the object enters it in the object table. Every object
/// is entered but the null object, and with `null_metadata` that one is
/// entered too.
pub open spec fn enters_table(val: FlatBinderObject, null_metadata: bool) -> bool {
    null_metadata || !val.spec_is_null()
}

/// Whether a flat object can be written at the parcel's cursor: there is
/// room for it, and if it is to be entered in the object table, the cursor
/// stands on a four-byte boundary behind every object that the table lists.
pub open spec fn object_fits(v: OwnedParcelView, val: FlatBinderObject, null_metadata: bool) -> bool {
    &&& fits(v, FLAT_BINDER_OBJECT_SIZE as int)
    &&& enters_table(val, null_metadata) ==> v.position % 4 == 0 && (v.objects.len() > 0
        ==> v.objects.last() < v.position)
}

/// A parcel after a flat object was written at its cursor: the record lies
/// at the old cursor, and the old cursor has joined the object table unless
/// the record is one that is left out of it.
pub open spec fn object_written(
    v: OwnedParcelView,
    val: FlatBinderObject,
    null_metadata: bool,
) -> OwnedParcelView {
    OwnedParcelView {
        objects: if enters_table(val, null_metadata) {
            v.objects.push(v.position as usize)
        } else {
            v.objects
        },
        has_fds: if val.type_ == BinderType::Fd.spec_tag() {
            Some(true)
        } else {
            v.has_fds
        },
        ..written(v, val.bytes())
    }
}

/// The flat object that stands for a strong reference, or for none.
pub open spec fn strong_binder_object(handle: Option<&Handle>) -> FlatBinderObject {
    FlatBinderObject {
        type_: BinderType::Handle.spec_tag(),
        flags: FLAT_BINDER_DEFAULT_FLAGS,
        target: match handle {
            Some(proxy) => proxy@.handle as u64,
            None => 0,
        },
        cookie: 0,
    }
}

/// What a borrowed parcel holds.
pub struct BinderParcelView {
    pub data: Seq<u8>,
    pub position: int,
    pub objects: Seq<usize>,
    /// The address at which the driver keeps the buffer.
    pub buffer: u64,
}

/// A parcel over a buffer that the driver lent: the kind that a reply comes
/// in. It is read like any parcel, and in the end it is released, which
/// gives the driver its buffer back.
pub struct BinderParcel<'a> {
    data: &'a [u8],
    pos: usize,
    offsets: &'a [usize],
    buffer: u64,
}

impl<'a> View for BinderParcel<'a> {
    type V = BinderParcelView;

    closed spec fn view(&self) -> BinderParcelView {
        BinderParcelView {
            data: self.data@,
            position: self.pos as int,
            objects: self.offsets@,
            buffer: self.buffer,
        }
    }
}

impl<'a> Reader for BinderParcel<'a> {
    open spec fn bytes(&self) -> Seq<u8> {
        self@.data
    }

    open spec fn cursor(&self) -> int {
        self@.position
    }

    fn position(&self) -> (p: u64) {
        self.pos as u64
    }
}

impl<'a> Parcel for BinderParcel<'a> {
    open spec fn offsets(&self) -> Seq<usize> {
        self@.objects
    }

    open spec fn wf(&self) -> bool {
        &&& len_ok(self@.data.len() as int)
        &&& table_ok(self@.data.len() as int, self@.objects)
        &&& 0 <= self@.position <= usize::MAX
    }

    closed spec fn at(&self, cursor: int) -> Self {
        BinderParcel { pos: cursor as usize, ..*self }
    }

    proof fn lemma_at(&self, cursor: int) {
    }

    proof fn lemma_wf(&self) {
    }

    fn objects(&self) -> (table: &[usize]) {
        self.offsets
    }

    fn as_data_slice(&self) -> (data: &[u8]) {
        self.data
    }

    fn seek(&mut self, pos: usize) {
        self.pos = pos;
    }
}

/// The parcel over `data` and its object table `offsets`, which the driver
/// keeps at the address `buffer`. A table that is not one of this buffer is
/// refused with `BadValue`, and so is a buffer too long for a cursor to pass
/// its end.
pub fn create_binder_parcel<'a>(data: &'a [u8], offsets: &'a [usize], buffer: u64) -> (r: Result<
    BinderParcel<'a>,
    BinderErrorKind,
>)
    ensures
        match r {
            Ok(parcel) => len_ok(data@.len() as int) && table_ok(data@.len() as int, offsets@)
                && parcel@ == (BinderParcelView {
                data: data@,
                position: 0,
                objects: offsets@,
                buffer,
            }) && parcel.wf(),
            Err(e) => e == BinderErrorKind::BadValue && !(len_ok(data@.len() as int) && table_ok(
                data@.len() as int,
                offsets@,
            )),
        },
{
    if data.len() > usize::MAX - 3 {
        return Err(BinderErrorKind::BadValue);
    }
    let mut i: usize = 0;
    while i < offsets.len()
        invariant
            i <= offsets@.len(),
            table_ok(data@.len() as int, offsets@.take(i as int)),
        decreases offsets@.len() - i,
    {
        let offset: usize = offsets[i];
        let fits: bool = data.len() >= FLAT_BINDER_OBJECT_SIZE && offset <= data.len()
            - FLAT_BINDER_OBJECT_SIZE;
        let ordered: bool = i == 0 || offsets[i - 1] < offset;
        if offset % 4 != 0 || !fits || !ordered {
            proof {
                if table_ok(data@.len() as int, offsets@) {
                    assert(offsets@[i as int] % 4 == 0);
                    if i > 0 {
                        assert(offsets@[i - 1] < offsets@[i as int]);
                    }
                }
            }
            return Err(BinderErrorKind::BadValue);
        }
        proof {
            let grown = offsets@.take(i + 1);
            assert forall|a: int, b: int| 0 <= a < b < grown.len() implies grown[a] < grown[b] by {
                if b == i && a < i - 1 {
                    assert(offsets@.take(i as int)[a] < offsets@.take(i as int)[i - 1]);
                } else if b < i {
                    assert(offsets@.take(i as int)[a] < offsets@.take(i as int)[b]);
                }
            }
            assert forall|k: int| 0 <= k < grown.len() implies #[trigger] grown[k] % 4 == 0
                && grown[k] + FLAT_BINDER_OBJECT_SIZE <= data@.len() by {
                if k < i {
                    assert(offsets@.take(i as int)[k] % 4 == 0);
                }
            }
        }
        i += 1;
    }
    proof {
        assert(offsets@.take(i as int) =~= offsets@);
    }
    Ok(BinderParcel { data, pos: 0, offsets, buffer })
}

impl<'a> BinderParcel<'a> {
    /// A parcel moved to another cursor differs in its cursor alone.
    pub proof fn lemma_at_view(&self, cursor: int)
        requires
            0 <= cursor <= usize::MAX,
        ensures
            self.at(cursor)@ == (BinderParcelView { position: cursor, ..self@ }),
    {
    }

    /// The length of the data.
    pub fn len(&self) -> (n: usize)
        ensures
            n == self@.data.len(),
    {
        self.data.len()
    }

    /// The address at which the driver keeps the buffer.
    pub fn buffer(&self) -> (address: u64)
        ensures
            address == self@.buffer,
    {
        self.buffer
    }

    /// Moves the cursor.
    pub fn set_position(&mut self, pos: usize)
        ensures
            final(self)@ == (BinderParcelView { position: pos as int, ..old(self)@ }),
            *final(self) == old(self).at(pos as int),
    {
        self.pos = pos;
    }

    /// Ends the parcel's life and gives what is to be written to the driver
    /// for it: one `FreeBuffer` command with the address of the buffer. The
    /// parcel is used up, so no second command can be made of it.
    pub fn release(self) -> (out: OwnedParcel)
        ensures
            out@ == command_parcel(free_buffer_frame(self@.buffer)),
            out.wf(),
    {
        frame_free_buffer(self.buffer)
    }
}

/// The command that gives a buffer back to the driver: the tag and the
/// address.
pub open spec fn free_buffer_frame(buffer: u64) -> Seq<u8> {
    native_u32_bytes(CommandProtocol::FreeBuffer.spec_tag()) + native_u64_bytes(buffer)
}

/// A parcel that was made to hold commands for the driver, after `bytes`
/// were written to it: they are its data, and the cursor stands at their end.
pub open spec fn command_parcel(bytes: Seq<u8>) -> OwnedParcelView {
    OwnedParcelView {
        data: bytes,
        position: bytes.len() as int,
        capacity: if bytes.len() > 256 {
            bytes.len() as int
        } else {
            256
        },
        ..fresh()
    }
}

/// Writing at the end of the data appends.
pub proof fn lemma_overwrite_at_end(data: Seq<u8>, bytes: Seq<u8>)
    ensures
        overwrite(data, data.len() as int, bytes) == data + bytes,
{
    assert(overwrite(data, data.len() as int, bytes) =~= data + bytes);
}

/// The parcel that holds one `FreeBuffer` command for the buffer at
/// `buffer`.
pub fn frame_free_buffer(buffer: u64) -> (out: OwnedParcel)
    ensures
        out@ == command_parcel(free_buffer_frame(buffer)),
        free_buffer_frame(buffer).len() == 12,
        out.wf(),
{
    let mut out = OwnedParcel::new();
    out.write_u32(CommandProtocol::FreeBuffer.tag());
    proof {
        lemma_overwrite_at_end(Seq::empty(), native_u32_bytes(CommandProtocol::FreeBuffer.spec_tag()));
        assert(out@.data =~= native_u32_bytes(CommandProtocol::FreeBuffer.spec_tag()));
        lemma_overwrite_at_end(out@.data, native_u64_bytes(buffer));
    }
    out.write_pointer(buffer);
    out
}

} // verus!
