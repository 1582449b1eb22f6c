//! Format identity, type-erased payloads and transcoding errors.
//!
//! A [`Data`] type describes one lane of the conversion graph. Its [`DataFormat`] is the pair of
//! its `TypeId` and its static [`DataFormatMeta`] labels; two formats are the same exactly when
//! both parts agree.
use std::any::Any;
use std::any::TypeId;
use vstd::prelude::*;
use vstd::std_specs::cmp::PartialEqSpec;
use vstd::std_specs::cmp::PartialEqSpecImpl;
use vstd::string::StringExecFns;

verus! {

#[verifier::external_type_specification]
#[verifier::external_body]
pub struct ExTypeId(TypeId);

/// Calls `<TypeId as PartialEq>::eq`. Claims that two type ids compare equal exactly when they
/// are the same value: `TypeId` is a plain identifier whose equality is its identity.
#[verifier::external_body]
fn type_ids_equal(a: &TypeId, b: &TypeId) -> (r: bool)
    ensures
        r == (*a == *b),
{
    a == b
}

/// `TypeId::of::<T>()` as std has it: the identifier of type `T`. Nothing is claimed of its
/// value, which differs between builds; contracts name it by the call itself.
pub assume_specification<T: ?Sized + 'static>[ TypeId::of::<T> ]() -> TypeId;

/// Calls `<str as PartialEq>::eq`. Claims that two string slices compare equal exactly when
/// they hold the same characters, as std documents for `str` equality (byte-wise, and UTF-8 is
/// injective).
#[verifier::external_body]
pub(crate) fn strs_equal(a: &str, b: &str) -> (r: bool)
    ensures
        r == (a@ == b@),
{
    a == b
}

/// Stable identity for a [`Data`] type, backed by [`TypeId`].
#[derive(Debug, Clone, Copy, Eq, Hash)]
pub struct DataFormatId(TypeId);

impl View for DataFormatId {
    type V = TypeId;

    closed spec fn view(&self) -> TypeId {
        self.0
    }
}

impl PartialEq for DataFormatId {
    fn eq(&self, other: &Self) -> (r: bool) {
        type_ids_equal(&self.0, &other.0)
    }
}

impl PartialEqSpecImpl for DataFormatId {
    open spec fn obeys_eq_spec() -> bool {
        true
    }

    open spec fn eq_spec(&self, other: &Self) -> bool {
        self@ == other@
    }
}

/// Human-readable labels for a format, used in errors and debug output.
#[derive(Debug, Clone, Copy, Eq, Hash)]
pub struct DataFormatMeta {
    pub name: &'static str,
    pub description: &'static str,
}

impl View for DataFormatMeta {
    type V = (Seq<char>, Seq<char>);

    open spec fn view(&self) -> (Seq<char>, Seq<char>) {
        (self.name@, self.description@)
    }
}

impl PartialEq for DataFormatMeta {
    fn eq(&self, other: &Self) -> (r: bool) {
        strs_equal(self.name, other.name) && strs_equal(self.description, other.description)
    }
}

impl PartialEqSpecImpl for DataFormatMeta {
    open spec fn obeys_eq_spec() -> bool {
        true
    }

    open spec fn eq_spec(&self, other: &Self) -> bool {
        self@ == other@
    }
}

impl DataFormatMeta {
    /// Placeholder labels for a type that does not override [`Data::data_format_meta`]: an
    /// empty name and an empty description.
    pub fn empty() -> (r: &'static DataFormatMeta)
        ensures
            r.name@ == Seq::<char>::empty(),
            r.description@ == Seq::<char>::empty(),
    {
        proof {
            reveal_strlit("");
        }
        &DataFormatMeta { name: "", description: "" }
    }
}

/// What identifies a format: the type id, the name and the description.
pub type FormatKey = (TypeId, Seq<char>, Seq<char>);

/// Identity of a data format: the Rust type (`TypeId`) plus static metadata.
#[derive(Debug, Clone, Copy, Eq, Hash)]
pub struct DataFormat {
    type_id: DataFormatId,
    meta: &'static DataFormatMeta,
}

impl View for DataFormat {
    type V = FormatKey;

    closed spec fn view(&self) -> FormatKey {
        (self.type_id@, self.meta.name@, self.meta.description@)
    }
}

impl PartialEq for DataFormat {
    fn eq(&self, other: &Self) -> (r: bool) {
        self.type_id.eq(&other.type_id) && self.meta.eq(other.meta)
    }
}

impl PartialEqSpecImpl for DataFormat {
    open spec fn obeys_eq_spec() -> bool {
        true
    }

    open spec fn eq_spec(&self, other: &Self) -> bool {
        self@ == other@
    }
}

impl DataFormat {
    /// The name of this format, as given by its metadata.
    pub closed spec fn name_view(&self) -> Seq<char> {
        self.meta.name@
    }

    /// The format's static metadata.
    pub closed spec fn meta_view(&self) -> &'static DataFormatMeta {
        self.meta
    }

    /// The format's static metadata.
    pub fn meta(&self) -> (r: &'static DataFormatMeta)
        ensures
            r.name@ == self@.1,
            r.description@ == self@.2,
    {
        self.meta
    }

    /// The format's name.
    pub fn name(&self) -> (r: &'static str)
        ensures
            r@ == self@.1,
    {
        self.meta.name
    }

    /// Compares two formats: true exactly when type id, name and description all agree.
    pub fn same_as(&self, other: &DataFormat) -> (r: bool)
        ensures
            r == (self@ == other@),
    {
        self.eq(other)
    }
}

/// Two formats are equal (`==`) exactly when their type ids are the same and their names and
/// descriptions are the same: formats of two different types are never equal, whatever their
/// metadata.
pub proof fn lemma_format_equality(a: DataFormat, b: DataFormat)
    ensures
        PartialEqSpec::eq_spec(&a, &b) <==> (a@.0 == b@.0 && a@.1 == b@.1 && a@.2 == b@.2),
        a@.0 != b@.0 ==> !PartialEqSpec::eq_spec(&a, &b),
{
}

/// A format's key is made of its type id and the labels of its metadata.
pub proof fn lemma_format_key(f: DataFormat)
    ensures
        f@.1 == f.meta_view().name@,
        f@.2 == f.meta_view().description@,
        f.name_view() == f.meta_view().name@,
{
}

/// A concrete value type that can flow through transcoders and be registered as a graph node.
pub trait Data: Sized + 'static {
    /// Static metadata for this format; defaults to [`DataFormatMeta::empty`].
    fn data_format_meta() -> (r: &'static DataFormatMeta)
        default_ensures
            r.name@ == Seq::<char>::empty(),
            r.description@ == Seq::<char>::empty(),
    {
        DataFormatMeta::empty()
    }

    /// Format identity used as a node key in the registry graph: this type's id, with the
    /// metadata that [`Data::data_format_meta`] gives.
    fn data_format() -> (r: DataFormat)
        default_ensures
            call_ensures(TypeId::of::<Self>, (), r@.0),
            call_ensures(Self::data_format_meta, (), r.meta_view()),
    {
        DataFormat { type_id: DataFormatId(TypeId::of::<Self>()), meta: Self::data_format_meta() }
    }

    /// Wraps `self` in [`AnyData`] for type-erased transcoding, tagged with
    /// [`Data::data_format`].
    fn into_any(self) -> (r: AnyData)
        default_ensures
            call_ensures(Self::data_format, (), r.format_view()),
            r.payload().holds(self),
    {
        AnyData { format: Self::data_format(), inner: box_any(self) }
    }
}

/// A value of any `'static` type, held as a boxed `dyn Any`. Verus does not take `dyn Any`,
/// so the struct is opaque to it; a box is only ever made by boxing one value.
#[verifier::external_body]
pub struct AnyBox {
    inner: Box<dyn Any>,
}

/// Calls `Box::new` and erases the type of the boxed value. Nothing is claimed of the result
/// beyond what [`AnyBox::holds`] names: that it was made from `value`.
#[verifier::external_body]
fn box_any<T: 'static>(value: T) -> AnyBox {
    AnyBox { inner: Box::new(value) }
}

/// Calls `<Box<dyn Any>>::downcast::<T>` and unboxes the value when it is a `T`. A box made by
/// boxing a `T` gives that very value back, moved out; a box that gives a `T` back was made
/// from it. (Which type a box holds is not visible to Verus, so a failure is not tied to it.)
#[verifier::external_body]
fn downcast_box<T: 'static>(b: AnyBox) -> (r: Option<T>)
    ensures
        forall|v: T| call_ensures(box_any::<T>, (v,), b) ==> r == Some(v),
        r matches Some(v) ==> call_ensures(box_any::<T>, (v,), b),
{
    b.inner.downcast::<T>().ok().map(|v| *v)
}

impl AnyBox {
    /// This box was made by boxing `value`.
    pub closed spec fn holds<T>(&self, value: T) -> bool {
        call_ensures(box_any::<T>, (value,), *self)
    }
}

/// A [`Data`] value held type-erased together with its [`DataFormat`].
pub struct AnyData {
    format: DataFormat,
    inner: AnyBox,
}

impl AnyData {
    /// The format this payload was tagged with.
    pub closed spec fn format_view(&self) -> DataFormat {
        self.format
    }

    /// The type-erased value.
    pub closed spec fn payload(&self) -> AnyBox {
        self.inner
    }

    /// The format this payload was tagged with.
    pub fn format(&self) -> (r: DataFormat)
        ensures
            r == self.format_view(),
    {
        self.format
    }
}

/// Errors from downcasting or from a transcoder implementation.
#[derive(Debug)]
pub enum TranscoderError {
    DataFormatMismatch { expected: &'static str, got: &'static str },
    Other(String),
}

/// The text that describes an error.
pub open spec fn error_message(e: TranscoderError) -> Seq<char> {
    match e {
        TranscoderError::DataFormatMismatch { expected, got } =>
            "codec type mismatch: expected "@ + expected@ + ", got "@ + got@,
        TranscoderError::Other(s) => s@,
    }
}

impl TranscoderError {
    /// The text that describes this error.
    pub fn message(&self) -> (r: String)
        ensures
            r@ == error_message(*self),
    {
        match self {
            TranscoderError::DataFormatMismatch { expected, got } => {
                let mut s = String::from_str("codec type mismatch: expected ");
                s.append(expected);
                s.append(", got ");
                s.append(got);
                s
            },
            TranscoderError::Other(s) => s.clone(),
        }
    }
}

/// Result type used by transcoders.
pub type TranscoderResult<T> = Result<T, TranscoderError>;

/// Takes the value out of `input` as a `T`. A payload made from a `T` gives that very value
/// back; when the payload holds no `T`, fails with `DataFormatMismatch`, naming `T`'s format as
/// expected and the input's tag as what came.
pub fn downcast_any_data<T: Data>(input: AnyData) -> (r: TranscoderResult<T>)
    ensures
        forall|v: T| #[trigger] input.payload().holds(v) ==> r == Ok::<T, TranscoderError>(v),
        r matches Ok(v) ==> input.payload().holds(v),
        r matches Err(e) ==> mismatch_for::<T>(e, input.format_view()),
{
    let AnyData { format, inner } = input;
    let out = downcast_box::<T>(inner);
    assert forall|v: T| #[trigger] input.payload().holds(v) implies out == Some(v) by {
        assert(call_ensures(box_any::<T>, (v,), inner));
    }
    match out {
        Some(value) => Ok(value),
        None => {
            let expected_format = T::data_format();
            assert(call_ensures(T::data_format, (), expected_format));
            assert(expected_format.meta.name@ == expected_format.name_view());
            assert(format.meta.name@ == input.format_view().name_view());
            Err(
                TranscoderError::DataFormatMismatch {
                    expected: expected_format.meta.name,
                    got: format.meta.name,
                },
            )
        },
    }
}

/// `e` is the mismatch reported when a payload tagged `tag` holds no `T`: it names `T`'s
/// format as expected and the tag as what came.
pub open spec fn mismatch_for<T: Data>(e: TranscoderError, tag: DataFormat) -> bool {
    &&& e matches TranscoderError::DataFormatMismatch { expected, got }
    &&& e->got@ == tag.name_view()
    &&& exists|f: DataFormat| call_ensures(T::data_format, (), f) && e->expected@ == f.name_view()
}

/// One type-erased hop: takes the `I` out of `input`, converts it with `codec`, and holds the
/// `O` it gives type-erased again, tagged with `O`'s format. A payload that holds no `I` fails
/// with `DataFormatMismatch` and `codec` is not run; an error of `codec` is passed on unchanged.
pub fn transcode_any<I: Data, O: Data, F: FnOnce(I) -> TranscoderResult<O>>(
    input: AnyData,
    codec: F,
) -> (r: TranscoderResult<AnyData>)
    requires
        forall|i: I| call_requires(codec, (i,)),
    ensures
        forall|i: I|
            #[trigger] input.payload().holds(i) ==> (r matches Ok(out) ==> exists|o: O|
                {
                    &&& call_ensures(codec, (i,), Ok(o))
                    &&& call_ensures(O::data_format, (), out.format_view())
                    &&& out.payload().holds(o)
                }),
        forall|i: I|
            #[trigger] input.payload().holds(i) ==> (r matches Err(e) ==> call_ensures(
                codec,
                (i,),
                Err(e),
            )),
        r is Ok ==> exists|i: I| input.payload().holds(i),
        r matches Err(e) ==> {
            ||| (forall|i: I| !input.payload().holds(i)) && mismatch_for::<I>(e, input.format_view())
            ||| exists|i: I| input.payload().holds(i) && call_ensures(codec, (i,), Err(e))
        },
{
    let value = match downcast_any_data::<I>(input) {
        Ok(value) => value,
        Err(e) => {
            assert(forall|i: I| !(#[trigger] input.payload().holds(i)));
            return Err(e);
        },
    };
    assert(forall|i: I| #[trigger] input.payload().holds(i) ==> i == value);
    let result = codec(value);
    assert(call_ensures(codec, (value,), result));
    match result {
        Ok(output) => {
            let format = O::data_format();
            assert(call_ensures(O::data_format, (), format));
            let inner = box_any::<O>(output);
            assert(call_ensures(box_any::<O>, (output,), inner));
            let out = AnyData { format, inner };
            assert(out.payload().holds(output));
            let r: TranscoderResult<AnyData> = Ok(out);
            assert forall|i: I| #[trigger] input.payload().holds(i) implies (r matches Ok(out2)
                ==> exists|o: O|
                {
                    &&& call_ensures(codec, (i,), Ok(o))
                    &&& call_ensures(O::data_format, (), out2.format_view())
                    &&& out2.payload().holds(o)
                }) by {
                assert(i == value);
                let out2 = r->Ok_0;
                assert(out2 == out);
                assert(out2.payload().holds(output));
            }
            r
        },
        Err(e) => {
            assert forall|i: I| #[trigger] input.payload().holds(i) implies call_ensures(
                codec,
                (i,),
                Err::<O, TranscoderError>(e),
            ) by {
                assert(i == value);
            }
            Err(e)
        },
    }
}

} // verus!
