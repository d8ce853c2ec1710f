//! Elements contained in bundles (and so in packets): the traits that an
//! element implements, the kinds of length prefix, replies and the debug
//! elements that just buffer their data.
use vstd::prelude::*;
use vstd::pervasive::arbitrary;

use crate::codec::{
    le_bytes, le_value, lemma_le_bytes_len, lemma_le_bytes_of_value, lemma_le_value_bound,
    lemma_le_value_of_bytes, lemma_pow256_values, pow256, write_blob, write_u32, write_uint,
    ByteReader, ElementError,
};

pub mod client;
pub mod id_range;

pub use id_range::ElementIdRange;

verus! {

/// The element id for reply.
pub const REPLY_ID: u8 = 0xFF;

/// A structure that can be interpreted as a bundle's element. Elements are
/// slices of data in a bundle of packets; several elements in a bundle are
/// written contiguously.
///
/// An element does not write its own length: the bundle writes it, of the
/// kind that `encode_length` gives. Elements used as replies ignore their
/// length kind and their id.
///
/// The view of an element is its abstract value: what `decode` gives back
/// is stated over it.
pub trait Element: Sized + View {
    /// Type of the element's config that is being encoded and decoded.
    type Config;

    /// The kind of length that `encode_length` gives.
    spec fn spec_encode_length(&self, config: &Self::Config) -> ElementLength;

    /// The numeric id that `encode` returns.
    spec fn spec_id(&self, config: &Self::Config) -> u8;

    /// The bytes that `encode` writes.
    spec fn spec_encode(&self, config: &Self::Config) -> Seq<u8>;

    /// The kind of length that `decode_length` gives for the id.
    spec fn spec_decode_length(config: &Self::Config, id: u8) -> ElementLength;

    /// What `decode` makes of the bytes `input` that the reader holds: the
    /// view of the element and how many bytes it consumed, or `None` where
    /// the input ends too early.
    spec fn spec_decode(input: Seq<u8>, len: usize, config: &Self::Config, id: u8) -> Option<
        (Self::V, nat),
    >;

    /// Get the length to use when encoding the element; any value for
    /// non-top-elements (replies).
    fn encode_length(&self, config: &Self::Config) -> (r: ElementLength)
        ensures
            r == self.spec_encode_length(config),
    ;

    /// Encode the element into `write`; returns the element's numeric id
    /// (ignored for replies).
    fn encode(&self, write: &mut Vec<u8>, config: &Self::Config) -> (r: Result<u8, ElementError>)
        ensures
            r == Ok::<u8, ElementError>(self.spec_id(config)),
            final(write)@ == old(write)@ + self.spec_encode(config),
    ;

    /// Get the length to use when decoding the element of the given id.
    fn decode_length(config: &Self::Config, id: u8) -> (r: ElementLength)
        ensures
            r == Self::spec_decode_length(config, id),
    ;

    /// Decode the element from `read`, which holds at most `len` bytes, for
    /// the given id (ignored for replies).
    fn decode(read: &mut ByteReader, len: usize, config: &Self::Config, id: u8) -> (r: Result<
        Self,
        ElementError,
    >)
        requires
            old(read)@.len() <= len,
        ensures
            match Self::spec_decode(old(read)@, len, config, id) {
                Some((v, n)) => {
                    &&& r matches Ok(e) && e@ == v
                    &&& n <= old(read)@.len()
                    &&& final(read)@ == old(read)@.skip(n as int)
                },
                None => r == Err::<Self, ElementError>(ElementError::UnexpectedEof),
            },
    ;

    /// Decoding the bytes that `encode` writes, limited to their own length,
    /// for the id that `encode` returns or for the reply id, gives back the
    /// element and consumes all of them.
    proof fn lemma_encode_decode(&self, config: &Self::Config, id: u8)
        requires
            self.spec_encode(config).len() <= usize::MAX,
            id == self.spec_id(config) || id == REPLY_ID,
        ensures
            Self::spec_decode(
                self.spec_encode(config),
                self.spec_encode(config).len() as usize,
                config,
                id,
            ) == Some((self@, self.spec_encode(config).len())),
    ;
}

/// An easier form of [`Element`], without config value, with a constant id
/// and a constant kind of length. Every simple element is an element.
pub trait SimpleElement: Sized + View {
    /// The numeric id that `id` gives.
    spec fn spec_id() -> u8;

    /// The numeric id of this element; any value where it is not a top
    /// element.
    fn id() -> (r: u8)
        ensures
            r == Self::spec_id(),
    ;

    /// The kind of length that `len` gives.
    spec fn spec_len() -> ElementLength;

    /// The kind of length that prefixes the element's content in a bundle.
    fn len() -> (r: ElementLength)
        ensures
            r == Self::spec_len(),
    ;

    /// The bytes that `encode` writes.
    spec fn spec_content(&self) -> Seq<u8>;

    /// What `decode` makes of the bytes `input` that the reader holds: the
    /// view of the element and how many bytes it consumed, or `None` where
    /// the input ends too early.
    spec fn spec_parse(input: Seq<u8>, len: usize) -> Option<(Self::V, nat)>;

    /// Encode the element into `write`.
    fn encode(&self, write: &mut Vec<u8>) -> (r: Result<(), ElementError>)
        ensures
            r == Ok::<(), ElementError>(()),
            final(write)@ == old(write)@ + self.spec_content(),
    ;

    /// Decode the element from `read`, which holds at most `len` bytes.
    fn decode(read: &mut ByteReader, len: usize) -> (r: Result<Self, ElementError>)
        requires
            old(read)@.len() <= len,
        ensures
            match Self::spec_parse(old(read)@, len) {
                Some((v, n)) => {
                    &&& r matches Ok(e) && e@ == v
                    &&& n <= old(read)@.len()
                    &&& final(read)@ == old(read)@.skip(n as int)
                },
                None => r == Err::<Self, ElementError>(ElementError::UnexpectedEof),
            },
    ;

    /// Decoding the bytes that `encode` writes, limited to their own length,
    /// gives back the element and consumes all of them.
    proof fn lemma_content_roundtrip(&self)
        requires
            self.spec_content().len() <= usize::MAX,
        ensures
            Self::spec_parse(self.spec_content(), self.spec_content().len() as usize) == Some(
                (self@, self.spec_content().len()),
            ),
    ;
}

impl<E: SimpleElement> Element for E {
    type Config = ();

    open spec fn spec_encode_length(&self, config: &()) -> ElementLength {
        E::spec_len()
    }

    open spec fn spec_id(&self, config: &()) -> u8 {
        E::spec_id()
    }

    open spec fn spec_encode(&self, config: &()) -> Seq<u8> {
        self.spec_content()
    }

    open spec fn spec_decode_length(config: &(), id: u8) -> ElementLength {
        E::spec_len()
    }

    open spec fn spec_decode(input: Seq<u8>, len: usize, config: &(), id: u8) -> Option<
        (E::V, nat),
    > {
        E::spec_parse(input, len)
    }

    fn encode_length(&self, _config: &()) -> (r: ElementLength) {
        E::len()
    }

    fn encode(&self, write: &mut Vec<u8>, _config: &()) -> (r: Result<u8, ElementError>) {
        match SimpleElement::encode(self, write) {
            Ok(()) => Ok(E::id()),
            Err(e) => Err(e),
        }
    }

    fn decode_length(_config: &(), _id: u8) -> (r: ElementLength) {
        E::len()
    }

    fn decode(read: &mut ByteReader, len: usize, _config: &(), _id: u8) -> (r: Result<
        E,
        ElementError,
    >) {
        SimpleElement::decode(read, len)
    }

    proof fn lemma_encode_decode(&self, config: &(), id: u8) {
        self.lemma_content_roundtrip();
    }
}

/// A form of [`SimpleElement`] for elements without content: encoding
/// writes nothing and decoding gives the default value.
pub trait EmptyElement: Default + View {
    /// The numeric id that `id` gives.
    spec fn spec_id() -> u8;

    /// The numeric id of this element; any value where it is not a top
    /// element.
    fn id() -> (r: u8)
        ensures
            r == Self::spec_id(),
    ;

    /// The kind of length that `len` gives.
    spec fn spec_len() -> ElementLength;

    /// The kind of length that prefixes the element's (empty) content.
    fn len() -> (r: ElementLength)
        ensures
            r == Self::spec_len(),
    ;

    /// An element without content holds no data: all its values have the
    /// same view.
    proof fn lemma_single_value(a: &Self, b: &Self)
        ensures
            a@ == b@,
    ;
}

impl<E: EmptyElement> SimpleElement for E {
    open spec fn spec_id() -> u8 {
        <E as EmptyElement>::spec_id()
    }

    fn id() -> (r: u8) {
        <E as EmptyElement>::id()
    }

    open spec fn spec_len() -> ElementLength {
        <E as EmptyElement>::spec_len()
    }

    fn len() -> (r: ElementLength) {
        <E as EmptyElement>::len()
    }

    open spec fn spec_content(&self) -> Seq<u8> {
        Seq::empty()
    }

    open spec fn spec_parse(input: Seq<u8>, len: usize) -> Option<(E::V, nat)> {
        Some((arbitrary::<E>()@, 0))
    }

    fn encode(&self, _write: &mut Vec<u8>) -> (r: Result<(), ElementError>) {
        assert(old(_write)@ + Seq::<u8>::empty() =~= old(_write)@);
        Ok(())
    }

    fn decode(read: &mut ByteReader, _len: usize) -> (r: Result<E, ElementError>) {
        let v = E::default();
        proof {
            E::lemma_single_value(&v, &arbitrary::<E>());
            assert(old(read)@.skip(0) =~= old(read)@);
        }
        Ok(v)
    }

    proof fn lemma_content_roundtrip(&self) {
        E::lemma_single_value(self, &arbitrary::<E>());
    }
}

/// The unit value as an element: no content, id zero, fixed length zero. It
/// is not meant as a top element.
impl EmptyElement for () {
    open spec fn spec_id() -> u8 {
        0x00
    }

    fn id() -> (r: u8) {
        0x00
    }

    open spec fn spec_len() -> ElementLength {
        ElementLength::Fixed(0)
    }

    fn len() -> (r: ElementLength) {
        ElementLength::zero()
    }

    proof fn lemma_single_value(a: &(), b: &()) {
    }
}

/// Type of length used by a specific message codec: how the length of an
/// element is encoded in the packet.
#[derive(Copy, Clone, Eq, PartialEq, Debug, Structural)]
pub enum ElementLength {
    /// A fixed length element, the length is not written in the header.
    Fixed(u32),
    /// The length is encoded on 8 bits in the element's header.
    Variable8,
    /// The length is encoded on 16 bits in the element's header.
    Variable16,
    /// The length is encoded on 24 bits in the element's header.
    Variable24,
    /// The length is encoded on 32 bits in the element's header.
    Variable32,
    /// The length is neither encoded nor decoded; decoding gives `u32::MAX`
    /// and leaves the reader unlimited. Meant for debugging.
    Undefined,
}

impl ElementLength {
    /// The fixed zero length.
    pub fn zero() -> (r: Self)
        ensures
            r == ElementLength::Fixed(0),
    {
        ElementLength::Fixed(0)
    }

    /// The number of bytes the length takes in the element's header.
    pub open spec fn spec_size(self) -> nat {
        match self {
            ElementLength::Fixed(_) => 0,
            ElementLength::Variable8 => 1,
            ElementLength::Variable16 => 2,
            ElementLength::Variable24 => 3,
            ElementLength::Variable32 => 4,
            ElementLength::Undefined => 0,
        }
    }

    /// Whether a length of this kind can be oversized: it is written on fewer
    /// than 32 bits, and the value full of ones marks a length that does not
    /// fit.
    pub open spec fn spec_can_overflow(self) -> bool {
        ||| self is Variable8
        ||| self is Variable16
        ||| self is Variable24
    }

    /// For a kind that can be oversized, the value full of ones.
    pub open spec fn spec_oversize(self) -> nat {
        (pow256(self.spec_size()) - 1) as nat
    }

    /// What `read` makes of the input bytes: the length (`None` for an
    /// oversized one) and the number of bytes it consumed; `None` where the
    /// input ends too early.
    pub open spec fn spec_read(self, input: Seq<u8>) -> Option<(Option<u32>, nat)> {
        match self {
            ElementLength::Fixed(len) => Some((Some(len), 0)),
            ElementLength::Undefined => Some((Some(u32::MAX), 0)),
            ElementLength::Variable32 => if input.len() >= 4 {
                Some((Some(le_value(input.take(4)) as u32), 4))
            } else {
                None
            },
            _ => {
                let size = self.spec_size();
                if input.len() >= size {
                    let value = le_value(input.take(size as int));
                    Some(
                        (
                            if value < self.spec_oversize() {
                                Some(value as u32)
                            } else {
                                None
                            },
                            size,
                        ),
                    )
                } else {
                    None
                }
            },
        }
    }

    /// The bytes that `write` writes for `len`.
    pub open spec fn spec_write_bytes(self, len: u32) -> Seq<u8> {
        if self.spec_can_overflow() {
            let max = self.spec_oversize();
            le_bytes(if len < max { len as nat } else { max }, self.spec_size())
        } else if self is Variable32 {
            le_bytes(len as nat, 4)
        } else {
            Seq::empty()
        }
    }

    /// What `write` returns for `len`: false where the length is oversized.
    pub open spec fn spec_write_fits(self, len: u32) -> bool {
        self.spec_can_overflow() ==> len < self.spec_oversize()
    }

    /// Read the length from a given reader; gives `None` if the length is
    /// full of ones (0xFF...), which marks an oversized length.
    pub fn read(self, reader: &mut ByteReader) -> (r: Result<Option<u32>, ElementError>)
        ensures
            match self.spec_read(old(reader)@) {
                Some((len, n)) => r == Ok::<Option<u32>, ElementError>(len) && final(reader)@
                    == old(reader)@.skip(n as int),
                None => r == Err::<Option<u32>, ElementError>(ElementError::UnexpectedEof)
                    && final(reader)@ == old(reader)@,
            },
            r is Ok ==> final(reader)@ == old(reader)@.skip(self.spec_size() as int),
    {
        proof {
            lemma_pow256_values();
        }
        let (len_size, max): (usize, u64) = match self {
            ElementLength::Fixed(len) => {
                assert(old(reader)@.skip(0) =~= old(reader)@);
                return Ok(Some(len));
            },
            ElementLength::Undefined => {
                assert(old(reader)@.skip(0) =~= old(reader)@);
                return Ok(Some(u32::MAX));
            },
            ElementLength::Variable8 => (1, 0xFF),
            ElementLength::Variable16 => (2, 0xFFFF),
            ElementLength::Variable24 => (3, 0xFFFFFF),
            ElementLength::Variable32 => {
                return match reader.read_u32() {
                    Ok(n) => Ok(Some(n)),
                    Err(e) => Err(e),
                };
            },
        };
        assert(len_size as nat == self.spec_size() && max as nat == self.spec_oversize());
        let len = match reader.read_uint(len_size) {
            Ok(len) => len,
            Err(e) => {
                return Err(e);
            },
        };
        if len < max {
            Ok(Some(len as u32))
        } else {
            Ok(None)
        }
    }

    /// Write the length to the given writer. If the length is too big, the
    /// value written is full of ones (0xFF...) and the result is false. A
    /// fixed length must equal the length it is given.
    pub fn write(self, writer: &mut Vec<u8>, len: u32) -> (r: Result<bool, ElementError>)
        requires
            self matches ElementLength::Fixed(expected) ==> expected == len,
        ensures
            r == Ok::<bool, ElementError>(self.spec_write_fits(len)),
            final(writer)@ == old(writer)@ + self.spec_write_bytes(len),
            final(writer)@.len() == old(writer)@.len() + self.spec_size(),
    {
        proof {
            lemma_pow256_values();
            lemma_le_bytes_len(len as nat, 4);
            lemma_le_bytes_len(len as nat, self.spec_size());
            lemma_le_bytes_len(self.spec_oversize(), self.spec_size());
        }
        let (len_size, max): (usize, u32) = match self {
            ElementLength::Fixed(_) => {
                assert(old(writer)@ + Seq::<u8>::empty() =~= old(writer)@);
                return Ok(true);
            },
            ElementLength::Undefined => {
                assert(old(writer)@ + Seq::<u8>::empty() =~= old(writer)@);
                return Ok(true);
            },
            ElementLength::Variable8 => (1, 0xFF),
            ElementLength::Variable16 => (2, 0xFFFF),
            ElementLength::Variable24 => (3, 0xFFFFFF),
            ElementLength::Variable32 => {
                write_u32(writer, len);
                return Ok(true);
            },
        };
        let value = if len < max { len } else { max };
        write_uint(writer, value as u64, len_size);
        Ok(len < max)
    }

    /// Return the size in bytes of this type of length.
    pub fn len(&self) -> (r: usize)
        ensures
            r == self.spec_size(),
    {
        match self {
            ElementLength::Fixed(_) => 0,
            ElementLength::Variable8 => 1,
            ElementLength::Variable16 => 2,
            ElementLength::Variable24 => 3,
            ElementLength::Variable32 => 4,
            ElementLength::Undefined => 0,
        }
    }
}


/// A wrapper for a reply element, with the request id and the underlying
/// element; use the empty element `()` as element to just read the request
/// id.
#[derive(Debug)]
pub struct Reply<E> {
    /// The request ID this reply is for.
    pub request_id: u32,
    /// The inner reply element.
    pub element: E,
}

impl<E: View> View for Reply<E> {
    type V = Reply<E::V>;

    open spec fn view(&self) -> Reply<E::V> {
        Reply { request_id: self.request_id, element: self.element@ }
    }
}

impl<E> Reply<E> {
    pub fn new(request_id: u32, element: E) -> (r: Self)
        ensures
            r.request_id == request_id,
            r.element == element,
    {
        Self { request_id, element }
    }
}

impl<E: Element> Element for Reply<E> {
    type Config = E::Config;

    open spec fn spec_encode_length(&self, config: &E::Config) -> ElementLength {
        ElementLength::Variable32
    }

    open spec fn spec_id(&self, config: &E::Config) -> u8 {
        REPLY_ID
    }

    open spec fn spec_encode(&self, config: &E::Config) -> Seq<u8> {
        le_bytes(self.request_id as nat, 4) + self.element.spec_encode(config)
    }

    open spec fn spec_decode_length(config: &E::Config, id: u8) -> ElementLength {
        ElementLength::Variable32
    }

    open spec fn spec_decode(input: Seq<u8>, len: usize, config: &E::Config, id: u8) -> Option<
        (Reply<E::V>, nat),
    > {
        if input.len() < 4 {
            None
        } else {
            match E::spec_decode(input.skip(4), (len - 4) as usize, config, id) {
                Some((element, n)) => Some(
                    (Reply { request_id: le_value(input.take(4)) as u32, element }, n + 4),
                ),
                None => None,
            }
        }
    }

    fn encode_length(&self, _config: &E::Config) -> (r: ElementLength) {
        ElementLength::Variable32
    }

    fn encode(&self, write: &mut Vec<u8>, config: &E::Config) -> (r: Result<u8, ElementError>) {
        let ghost start = write@;
        write_u32(write, self.request_id);
        let ghost mid = write@;
        match self.element.encode(write, config) {
            Ok(_) => {},
            Err(e) => {
                return Err(e);
            },
        }
        assert(write@ =~= start + self.spec_encode(config));
        Ok(REPLY_ID)
    }

    fn decode_length(_config: &E::Config, _id: u8) -> (r: ElementLength) {
        ElementLength::Variable32
    }

    fn decode(read: &mut ByteReader, len: usize, config: &E::Config, id: u8) -> (r: Result<
        Self,
        ElementError,
    >) {
        let ghost input = read@;
        let request_id = match read.read_u32() {
            Ok(v) => v,
            Err(e) => {
                return Err(e);
            },
        };
        let element = match E::decode(read, len - 4, config, id) {
            Ok(e) => e,
            Err(e) => {
                return Err(e);
            },
        };
        proof {
            if let Some((v, n)) = E::spec_decode(input.skip(4), (len - 4) as usize, config, id) {
                assert(input.skip(4).skip(n as int) =~= input.skip((n + 4) as int));
            }
        }
        Ok(Self { request_id, element })
    }

    proof fn lemma_encode_decode(&self, config: &E::Config, id: u8) {
        let inner = self.element.spec_encode(config);
        let bytes = self.spec_encode(config);
        lemma_pow256_values();
        lemma_le_bytes_len(self.request_id as nat, 4);
        lemma_le_value_of_bytes(self.request_id as nat, 4);
        assert(bytes.skip(4) =~= inner);
        assert(bytes.take(4) =~= le_bytes(self.request_id as nat, 4));
        self.element.lemma_encode_decode(config, REPLY_ID);
    }
}

/// An element of fixed size that just buffers the data.
#[derive(Clone)]
pub struct DebugElementFixed<const ID: u8, const LEN: usize> {
    data: [u8; LEN],
}

impl<const ID: u8, const LEN: usize> View for DebugElementFixed<ID, LEN> {
    type V = Seq<u8>;

    closed spec fn view(&self) -> Seq<u8> {
        self.data@
    }
}

impl<const ID: u8, const LEN: usize> DebugElementFixed<ID, LEN> {
    /// The buffered data.
    pub fn data(&self) -> (r: &[u8])
        ensures
            r@ == self@,
    {
        self.data.as_slice()
    }
}

impl<const ID: u8, const LEN: usize> SimpleElement for DebugElementFixed<ID, LEN> {
    open spec fn spec_id() -> u8 {
        ID
    }

    fn id() -> (r: u8) {
        ID
    }

    open spec fn spec_len() -> ElementLength {
        ElementLength::Fixed(LEN as u32)
    }

    fn len() -> (r: ElementLength) {
        ElementLength::Fixed(#[verifier::truncate] (LEN as u32))
    }

    open spec fn spec_content(&self) -> Seq<u8> {
        self@
    }

    open spec fn spec_parse(input: Seq<u8>, len: usize) -> Option<(Seq<u8>, nat)> {
        if input.len() >= LEN {
            Some((input.take(LEN as int), LEN as nat))
        } else {
            None
        }
    }

    fn encode(&self, write: &mut Vec<u8>) -> (r: Result<(), ElementError>) {
        write_blob(write, self.data.as_slice());
        Ok(())
    }

    fn decode(read: &mut ByteReader, len: usize) -> (r: Result<Self, ElementError>) {
        let blob = match read.read_blob(LEN) {
            Ok(blob) => blob,
            Err(e) => {
                return Err(e);
            },
        };
        let mut data = [0u8; LEN];
        let mut i: usize = 0;
        while i < LEN
            invariant
                i <= LEN,
                blob@.len() == LEN,
                forall|j: int| 0 <= j < i ==> data@[j] == blob@[j],
            decreases LEN - i,
        {
            data[i] = blob[i];
            i = i + 1;
        }
        assert(data@ =~= blob@);
        Ok(Self { data })
    }

    proof fn lemma_content_roundtrip(&self) {
        assert(self@.take(LEN as int) =~= self@);
    }
}

/// An element of variable 8 size that just buffers the data.
#[derive(Clone)]
pub struct DebugElementVariable8<const ID: u8> {
    data: Vec<u8>,
}

impl<const ID: u8> View for DebugElementVariable8<ID> {
    type V = Seq<u8>;

    closed spec fn view(&self) -> Seq<u8> {
        self.data@
    }
}

impl<const ID: u8> DebugElementVariable8<ID> {
    /// The buffered data.
    pub fn data(&self) -> (r: &[u8])
        ensures
            r@ == self@,
    {
        self.data.as_slice()
    }
}

impl<const ID: u8> SimpleElement for DebugElementVariable8<ID> {
    open spec fn spec_id() -> u8 {
        ID
    }

    fn id() -> (r: u8) {
        ID
    }

    open spec fn spec_len() -> ElementLength {
        ElementLength::Variable8
    }

    fn len() -> (r: ElementLength) {
        ElementLength::Variable8
    }

    open spec fn spec_content(&self) -> Seq<u8> {
        self@
    }

    open spec fn spec_parse(input: Seq<u8>, len: usize) -> Option<(Seq<u8>, nat)> {
        if input.len() >= len {
            Some((input.take(len as int), len as nat))
        } else {
            None
        }
    }

    fn encode(&self, write: &mut Vec<u8>) -> (r: Result<(), ElementError>) {
        write_blob(write, self.data.as_slice());
        Ok(())
    }

    fn decode(read: &mut ByteReader, len: usize) -> (r: Result<Self, ElementError>) {
        match read.read_blob(len) {
            Ok(data) => Ok(Self { data }),
            Err(e) => Err(e),
        }
    }

    proof fn lemma_content_roundtrip(&self) {
        assert(self@.take(self@.len() as int) =~= self@);
    }
}

/// An element of variable 16 size that just buffers the data.
#[derive(Clone)]
pub struct DebugElementVariable16<const ID: u8> {
    data: Vec<u8>,
}

impl<const ID: u8> View for DebugElementVariable16<ID> {
    type V = Seq<u8>;

    closed spec fn view(&self) -> Seq<u8> {
        self.data@
    }
}

impl<const ID: u8> DebugElementVariable16<ID> {
    /// The buffered data.
    pub fn data(&self) -> (r: &[u8])
        ensures
            r@ == self@,
    {
        self.data.as_slice()
    }
}

impl<const ID: u8> SimpleElement for DebugElementVariable16<ID> {
    open spec fn spec_id() -> u8 {
        ID
    }

    fn id() -> (r: u8) {
        ID
    }

    open spec fn spec_len() -> ElementLength {
        ElementLength::Variable16
    }

    fn len() -> (r: ElementLength) {
        ElementLength::Variable16
    }

    open spec fn spec_content(&self) -> Seq<u8> {
        self@
    }

    open spec fn spec_parse(input: Seq<u8>, len: usize) -> Option<(Seq<u8>, nat)> {
        if input.len() >= len {
            Some((input.take(len as int), len as nat))
        } else {
            None
        }
    }

    fn encode(&self, write: &mut Vec<u8>) -> (r: Result<(), ElementError>) {
        write_blob(write, self.data.as_slice());
        Ok(())
    }

    fn decode(read: &mut ByteReader, len: usize) -> (r: Result<Self, ElementError>) {
        match read.read_blob(len) {
            Ok(data) => Ok(Self { data }),
            Err(e) => Err(e),
        }
    }

    proof fn lemma_content_roundtrip(&self) {
        assert(self@.take(self@.len() as int) =~= self@);
    }
}

/// An element of variable 24 size that just buffers the data.
#[derive(Clone)]
pub struct DebugElementVariable24<const ID: u8> {
    data: Vec<u8>,
}

impl<const ID: u8> View for DebugElementVariable24<ID> {
    type V = Seq<u8>;

    closed spec fn view(&self) -> Seq<u8> {
        self.data@
    }
}

impl<const ID: u8> DebugElementVariable24<ID> {
    /// The buffered data.
    pub fn data(&self) -> (r: &[u8])
        ensures
            r@ == self@,
    {
        self.data.as_slice()
    }
}

impl<const ID: u8> SimpleElement for DebugElementVariable24<ID> {
    open spec fn spec_id() -> u8 {
        ID
    }

    fn id() -> (r: u8) {
        ID
    }

    open spec fn spec_len() -> ElementLength {
        ElementLength::Variable24
    }

    fn len() -> (r: ElementLength) {
        ElementLength::Variable24
    }

    open spec fn spec_content(&self) -> Seq<u8> {
        self@
    }

    open spec fn spec_parse(input: Seq<u8>, len: usize) -> Option<(Seq<u8>, nat)> {
        if input.len() >= len {
            Some((input.take(len as int), len as nat))
        } else {
            None
        }
    }

    fn encode(&self, write: &mut Vec<u8>) -> (r: Result<(), ElementError>) {
        write_blob(write, self.data.as_slice());
        Ok(())
    }

    fn decode(read: &mut ByteReader, len: usize) -> (r: Result<Self, ElementError>) {
        match read.read_blob(len) {
            Ok(data) => Ok(Self { data }),
            Err(e) => Err(e),
        }
    }

    proof fn lemma_content_roundtrip(&self) {
        assert(self@.take(self@.len() as int) =~= self@);
    }
}

/// An element of variable 32 size that just buffers the data.
#[derive(Clone)]
pub struct DebugElementVariable32<const ID: u8> {
    data: Vec<u8>,
}

impl<const ID: u8> View for DebugElementVariable32<ID> {
    type V = Seq<u8>;

    closed spec fn view(&self) -> Seq<u8> {
        self.data@
    }
}

impl<const ID: u8> DebugElementVariable32<ID> {
    /// The buffered data.
    pub fn data(&self) -> (r: &[u8])
        ensures
            r@ == self@,
    {
        self.data.as_slice()
    }
}

impl<const ID: u8> SimpleElement for DebugElementVariable32<ID> {
    open spec fn spec_id() -> u8 {
        ID
    }

    fn id() -> (r: u8) {
        ID
    }

    open spec fn spec_len() -> ElementLength {
        ElementLength::Variable32
    }

    fn len() -> (r: ElementLength) {
        ElementLength::Variable32
    }

    open spec fn spec_content(&self) -> Seq<u8> {
        self@
    }

    open spec fn spec_parse(input: Seq<u8>, len: usize) -> Option<(Seq<u8>, nat)> {
        if input.len() >= len {
            Some((input.take(len as int), len as nat))
        } else {
            None
        }
    }

    fn encode(&self, write: &mut Vec<u8>) -> (r: Result<(), ElementError>) {
        write_blob(write, self.data.as_slice());
        Ok(())
    }

    fn decode(read: &mut ByteReader, len: usize) -> (r: Result<Self, ElementError>) {
        match read.read_blob(len) {
            Ok(data) => Ok(Self { data }),
            Err(e) => Err(e),
        }
    }

    proof fn lemma_content_roundtrip(&self) {
        assert(self@.take(self@.len() as int) =~= self@);
    }
}

/// An element of undefined size that just buffers the data.
#[derive(Clone)]
pub struct DebugElementUndefined<const ID: u8> {
    data: Vec<u8>,
}

impl<const ID: u8> View for DebugElementUndefined<ID> {
    type V = Seq<u8>;

    closed spec fn view(&self) -> Seq<u8> {
        self.data@
    }
}

impl<const ID: u8> DebugElementUndefined<ID> {
    /// The buffered data.
    pub fn data(&self) -> (r: &[u8])
        ensures
            r@ == self@,
    {
        self.data.as_slice()
    }
}

impl<const ID: u8> SimpleElement for DebugElementUndefined<ID> {
    open spec fn spec_id() -> u8 {
        ID
    }

    fn id() -> (r: u8) {
        ID
    }

    open spec fn spec_len() -> ElementLength {
        ElementLength::Undefined
    }

    fn len() -> (r: ElementLength) {
        ElementLength::Undefined
    }

    open spec fn spec_content(&self) -> Seq<u8> {
        self@
    }

    open spec fn spec_parse(input: Seq<u8>, len: usize) -> Option<(Seq<u8>, nat)> {
        Some((input, input.len()))
    }

    fn encode(&self, write: &mut Vec<u8>) -> (r: Result<(), ElementError>) {
        write_blob(write, self.data.as_slice());
        Ok(())
    }

    /// With an undefined length the given `len` is not relevant: the data
    /// is read to the end.
    fn decode(read: &mut ByteReader, _len: usize) -> (r: Result<Self, ElementError>) {
        let data = read.read_to_end();
        assert(old(read)@.skip(old(read)@.len() as int) =~= Seq::<u8>::empty());
        Ok(Self { data })
    }

    proof fn lemma_content_roundtrip(&self) {
    }
}

/// The kinds of length: the header takes 0, 1, 2, 3, 4 and 0 bytes for
/// fixed, 8, 16, 24, 32-bit and undefined lengths; the 8, 16 and 24-bit
/// kinds mark an oversized length with 0xFF, 0xFFFF and 0xFFFFFF. A
/// variable length is written as its little-endian bytes (the oversize mark
/// where it does not fit) and read as the value of the header's
/// little-endian bytes.
pub proof fn lemma_length_kinds(kind: ElementLength, len: u32, input: Seq<u8>)
    ensures
        ElementLength::Variable8.spec_size() == 1 && ElementLength::Variable8.spec_oversize()
            == 0xFF,
        ElementLength::Variable16.spec_size() == 2 && ElementLength::Variable16.spec_oversize()
            == 0xFFFF,
        ElementLength::Variable24.spec_size() == 3 && ElementLength::Variable24.spec_oversize()
            == 0xFF_FFFF,
        ElementLength::Variable32.spec_size() == 4,
        kind is Fixed || kind is Undefined ==> kind.spec_size() == 0 && kind.spec_write_bytes(len)
            == Seq::<u8>::empty(),
        kind.spec_can_overflow() ==> kind.spec_write_bytes(len) == le_bytes(
            if len < kind.spec_oversize() {
                len as nat
            } else {
                kind.spec_oversize()
            },
            kind.spec_size(),
        ),
        kind is Variable32 ==> kind.spec_write_bytes(len) == le_bytes(len as nat, 4),
        (kind.spec_can_overflow() || kind is Variable32) && input.len() >= kind.spec_size() ==> (
        kind.spec_read(input) matches Some((v, n)) && n == kind.spec_size() && (v is Some
            ==> v->0 as nat == le_value(input.take(kind.spec_size() as int))) && (v is None
            ==> le_value(input.take(kind.spec_size() as int)) == kind.spec_oversize())),
        (kind.spec_can_overflow() || kind is Variable32) && input.len() < kind.spec_size()
            ==> kind.spec_read(input) is None,
        kind matches ElementLength::Fixed(n) ==> kind.spec_read(input) == Some(
            (Some(n), 0nat),
        ),
        kind is Undefined ==> kind.spec_read(input) == Some((Some(u32::MAX), 0nat)),
{
    lemma_pow256_values();
    if (kind.spec_can_overflow() || kind is Variable32) && input.len() >= kind.spec_size() {
        lemma_le_value_bound(input.take(kind.spec_size() as int));
    }
}

/// Reading back a length that `write` wrote gives the length where `write`
/// reported that it fits and `None` where it did not, and consumes exactly
/// the header that `write` wrote, whatever follows it. (An undefined length
/// writes nothing and always reads as `u32::MAX`.)
pub proof fn lemma_length_write_read(kind: ElementLength, len: u32, rest: Seq<u8>)
    requires
        !(kind is Undefined),
        kind matches ElementLength::Fixed(expected) ==> expected == len,
    ensures
        kind.spec_read(kind.spec_write_bytes(len) + rest) == Some(
            (
                if kind.spec_write_fits(len) {
                    Some(len)
                } else {
                    None
                },
                kind.spec_size(),
            ),
        ),
{
    lemma_pow256_values();
    let bytes = kind.spec_write_bytes(len);
    let input = bytes + rest;
    if kind.spec_can_overflow() || kind is Variable32 {
        let size = kind.spec_size();
        let value: nat = if kind.spec_can_overflow() && len >= kind.spec_oversize() {
            kind.spec_oversize()
        } else {
            len as nat
        };
        assert(bytes == le_bytes(value, size));
        lemma_le_bytes_len(value, size);
        assert(input.take(size as int) =~= bytes);
        lemma_le_value_of_bytes(value, size);
    }
}

/// A length that `read` decoded is written back as the very bytes that it
/// consumed; an oversized one (read as `None`) consumed the value full of
/// ones, which is what `write` writes for every oversized length.
pub proof fn lemma_length_read_write(kind: ElementLength, input: Seq<u8>, len: u32)
    ensures
        kind.spec_read(input) matches Some((Some(v), n)) ==> kind.spec_write_bytes(v) == input.take(
            n as int,
        ),
        kind.spec_read(input) matches Some((None, n)) ==> !kind.spec_write_fits(len)
            ==> kind.spec_write_bytes(len) == input.take(n as int),
{
    lemma_pow256_values();
    let size = kind.spec_size();
    if input.len() >= size && (kind.spec_can_overflow() || kind is Variable32) {
        let bytes = input.take(size as int);
        lemma_le_value_bound(bytes);
        lemma_le_bytes_of_value(bytes);
    }
    if !(kind.spec_can_overflow() || kind is Variable32) {
        assert(input.take(0) =~= Seq::<u8>::empty());
    }
}

/// Through the `Element` trait a simple element keeps its own id and kind of
/// length: `encode` returns its id, and `encode_length` and `decode_length`
/// (for every id) both give its declared kind of length; it writes and reads
/// its content the same way.
pub proof fn lemma_simple_element_as_element<E: SimpleElement>(
    e: &E,
    id: u8,
    input: Seq<u8>,
    len: usize,
)
    ensures
        <E as Element>::spec_decode_length(&(), id) == <E as SimpleElement>::spec_len(),
        <E as Element>::spec_encode_length(e, &()) == <E as SimpleElement>::spec_len(),
        <E as Element>::spec_decode_length(&(), id) == <E as Element>::spec_encode_length(
            e,
            &(),
        ),
        <E as Element>::spec_id(e, &()) == <E as SimpleElement>::spec_id(),
        <E as Element>::spec_encode(e, &()) == e.spec_content(),
        <E as Element>::spec_decode(input, len, &(), id) == E::spec_parse(input, len),
{
}

/// A reply writes its request id as four little-endian bytes, then the
/// element; decoding takes the request id from the first four bytes and the
/// element from the rest, with four bytes less of length.
pub proof fn lemma_reply_layout<E: Element>(
    reply: Reply<E>,
    config: &E::Config,
    input: Seq<u8>,
    len: usize,
    id: u8,
)
    ensures
        reply.spec_encode(config) == le_bytes(reply.request_id as nat, 4) + reply.element.spec_encode(
            config,
        ),
        reply.spec_id(config) == REPLY_ID,
        reply.spec_encode_length(config) == ElementLength::Variable32,
        Reply::<E>::spec_decode_length(config, id) == ElementLength::Variable32,
        input.len() < 4 ==> Reply::<E>::spec_decode(input, len, config, id) is None,
        input.len() >= 4 ==> match E::spec_decode(input.skip(4), (len - 4) as usize, config, id) {
            Some((element, n)) => Reply::<E>::spec_decode(input, len, config, id) == Some(
                (Reply { request_id: le_value(input.take(4)) as u32, element }, n + 4),
            ),
            None => Reply::<E>::spec_decode(input, len, config, id) is None,
        },
{
}

/// `DebugElementFixed` buffers its data unchanged: it writes exactly the data it holds
/// (the bytes that `data` gives), and decoding takes the first `LEN` bytes of the input, whatever the length it is given. Its id is the `ID`
/// parameter and its kind of length is fixed `LEN`.
pub proof fn lemma_debug_fixed_buffers_data<const ID: u8, const LEN: usize>(e: DebugElementFixed<ID, LEN>, input: Seq<u8>, len: usize)
    ensures
        e.spec_content() == e@,
        <DebugElementFixed<ID, LEN> as SimpleElement>::spec_id() == ID,
        <DebugElementFixed<ID, LEN> as SimpleElement>::spec_len() == ElementLength::Fixed(LEN as u32),
        input.len() >= LEN ==> <DebugElementFixed<ID, LEN> as SimpleElement>::spec_parse(input, len) == Some(
            (input.take(LEN as int), LEN as nat),
        ),
        input.len() < LEN ==> <DebugElementFixed<ID, LEN> as SimpleElement>::spec_parse(input, len) is None,
{
}

/// `DebugElementVariable8` buffers its data unchanged: it writes exactly the data it holds
/// (the bytes that `data` gives), and decoding takes the first `len` bytes of the input. Its id is the `ID`
/// parameter and its kind of length is `Variable8`.
pub proof fn lemma_debug_variable8_buffers_data<const ID: u8>(e: DebugElementVariable8<ID>, input: Seq<u8>, len: usize)
    ensures
        e.spec_content() == e@,
        <DebugElementVariable8<ID> as SimpleElement>::spec_id() == ID,
        <DebugElementVariable8<ID> as SimpleElement>::spec_len() == ElementLength::Variable8,
        input.len() >= len ==> <DebugElementVariable8<ID> as SimpleElement>::spec_parse(input, len) == Some(
            (input.take(len as int), len as nat),
        ),
        input.len() < len ==> <DebugElementVariable8<ID> as SimpleElement>::spec_parse(input, len) is None,
{
}

/// `DebugElementVariable16` buffers its data unchanged: it writes exactly the data it holds
/// (the bytes that `data` gives), and decoding takes the first `len` bytes of the input. Its id is the `ID`
/// parameter and its kind of length is `Variable16`.
pub proof fn lemma_debug_variable16_buffers_data<const ID: u8>(e: DebugElementVariable16<ID>, input: Seq<u8>, len: usize)
    ensures
        e.spec_content() == e@,
        <DebugElementVariable16<ID> as SimpleElement>::spec_id() == ID,
        <DebugElementVariable16<ID> as SimpleElement>::spec_len() == ElementLength::Variable16,
        input.len() >= len ==> <DebugElementVariable16<ID> as SimpleElement>::spec_parse(input, len) == Some(
            (input.take(len as int), len as nat),
        ),
        input.len() < len ==> <DebugElementVariable16<ID> as SimpleElement>::spec_parse(input, len) is None,
{
}

/// `DebugElementVariable24` buffers its data unchanged: it writes exactly the data it holds
/// (the bytes that `data` gives), and decoding takes the first `len` bytes of the input. Its id is the `ID`
/// parameter and its kind of length is `Variable24`.
pub proof fn lemma_debug_variable24_buffers_data<const ID: u8>(e: DebugElementVariable24<ID>, input: Seq<u8>, len: usize)
    ensures
        e.spec_content() == e@,
        <DebugElementVariable24<ID> as SimpleElement>::spec_id() == ID,
        <DebugElementVariable24<ID> as SimpleElement>::spec_len() == ElementLength::Variable24,
        input.len() >= len ==> <DebugElementVariable24<ID> as SimpleElement>::spec_parse(input, len) == Some(
            (input.take(len as int), len as nat),
        ),
        input.len() < len ==> <DebugElementVariable24<ID> as SimpleElement>::spec_parse(input, len) is None,
{
}

/// `DebugElementVariable32` buffers its data unchanged: it writes exactly the data it holds
/// (the bytes that `data` gives), and decoding takes the first `len` bytes of the input. Its id is the `ID`
/// parameter and its kind of length is `Variable32`.
pub proof fn lemma_debug_variable32_buffers_data<const ID: u8>(e: DebugElementVariable32<ID>, input: Seq<u8>, len: usize)
    ensures
        e.spec_content() == e@,
        <DebugElementVariable32<ID> as SimpleElement>::spec_id() == ID,
        <DebugElementVariable32<ID> as SimpleElement>::spec_len() == ElementLength::Variable32,
        input.len() >= len ==> <DebugElementVariable32<ID> as SimpleElement>::spec_parse(input, len) == Some(
            (input.take(len as int), len as nat),
        ),
        input.len() < len ==> <DebugElementVariable32<ID> as SimpleElement>::spec_parse(input, len) is None,
{
}

/// `DebugElementUndefined` buffers its data unchanged: it writes exactly the data it holds
/// (the bytes that `data` gives), and decoding takes the whole input, whatever the length it is given. Its id is the `ID`
/// parameter and its kind of length is `Undefined`.
pub proof fn lemma_debug_undefined_buffers_data<const ID: u8>(e: DebugElementUndefined<ID>, input: Seq<u8>, len: usize)
    ensures
        e.spec_content() == e@,
        <DebugElementUndefined<ID> as SimpleElement>::spec_id() == ID,
        <DebugElementUndefined<ID> as SimpleElement>::spec_len() == ElementLength::Undefined,
        <DebugElementUndefined<ID> as SimpleElement>::spec_parse(input, len) == Some((input, input.len())),
{
}

} // verus!
