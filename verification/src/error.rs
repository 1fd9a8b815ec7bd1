//! The compact error representation and the error handle around it.
//!
//! A representation is either *immediate* — the 32-bit type id carried
//! directly in a tagged word, allocation-free — or a *heap* record holding
//! the type id and a message.  The low 2 bits discriminate: an immediate
//! word has them set, a record leaves them clear, which loses nothing
//! because a packed kind's low 4 bits are always zero.

use vstd::prelude::*;
use vstd::std_specs::cmp::PartialEqSpec;
use vstd::string::StringExecFns;

use crate::kind::{spec_kind_text, RErrorKind};
use crate::registry::{ModuleRegistry, RModule};

verus! {

/// The 32-bit type id: the module identity in the high half, the packed
/// kind in the low half.  Two errors are equal exactly when these match.
pub open spec fn spec_type_id_of(module: u16, packed_kind: u16) -> u32 {
    ((module as u32) << 16) | (packed_kind as u32)
}

/// The heap record of an error that carries a message.
enum ErrorData {
    SimpleMessage(u32, &'static str),
    CustomMessage(u32, String),
}

impl ErrorData {
    spec fn spec_type_id(&self) -> u32 {
        match self {
            ErrorData::SimpleMessage(id, _) => *id,
            ErrorData::CustomMessage(id, _) => *id,
        }
    }

    spec fn spec_msg(&self) -> Seq<char> {
        match self {
            ErrorData::SimpleMessage(_, msg) => msg@,
            ErrorData::CustomMessage(_, msg) => msg@,
        }
    }

    fn error_type_id(&self) -> (r: u32)
        ensures
            r == self.spec_type_id(),
    {
        match self {
            ErrorData::SimpleMessage(id, _) => *id,
            ErrorData::CustomMessage(id, _) => *id,
        }
    }

    fn error_msg(&self) -> (r: &str)
        ensures
            r@ == self.spec_msg(),
    {
        match self {
            ErrorData::SimpleMessage(_, msg) => msg,
            ErrorData::CustomMessage(_, msg) => msg.as_str(),
        }
    }
}

/// An immediate word carries the type id with the 2-bit tag set; a heap
/// record is reached instead where a message must be carried along.
enum ReprData {
    Immediate(u32),
    Heap(ErrorData),
}

/// The compact representation: a type id, with or without a message.
pub struct Repr {
    data: ReprData,
}

impl Repr {
    /// Whether this value is the allocation-free immediate form.
    pub closed spec fn is_immediate(&self) -> bool {
        self.data is Immediate
    }

    /// The 32-bit type id this value encodes.
    pub closed spec fn spec_type_id(&self) -> u32 {
        match self.data {
            ReprData::Immediate(bits) => bits & 0xFFFF_FFFCu32,
            ReprData::Heap(d) => d.spec_type_id(),
        }
    }

    /// The carried message, if any.
    pub closed spec fn spec_msg(&self) -> Option<Seq<char>> {
        match self.data {
            ReprData::Immediate(_) => None,
            ReprData::Heap(d) => Some(d.spec_msg()),
        }
    }

    /// An immediate word has the tag bits set and the rest of the low
    /// nibble clear; a record's type id has the whole low nibble clear.
    /// Either way the underlying word is never zero and the type id is
    /// recovered exactly.
    pub closed spec fn wf(&self) -> bool {
        match self.data {
            ReprData::Immediate(bits) => bits & 0xF == 0x3,
            ReprData::Heap(d) => d.spec_type_id() & 0xF == 0,
        }
    }

    /// The module identity encoded in the type id.
    pub open spec fn spec_module_id(&self) -> u16 {
        (self.spec_type_id() >> 16) as u16
    }

    /// The packed kind encoded in the type id.
    pub open spec fn spec_kind_bits(&self) -> u16 {
        (self.spec_type_id() & 0xFFFF) as u16
    }

    /// The immediate, allocation-free form: the type id itself, tagged.
    pub fn new_simple(module: RModule, kind: RErrorKind) -> (r: Self)
        requires
            kind.wf(),
        ensures
            r.wf(),
            r.is_immediate(),
            r.spec_type_id() == spec_type_id_of(module.id(), kind.packed()),
            r.spec_module_id() == module.id(),
            r.spec_kind_bits() == kind.packed(),
            r.spec_msg() is None,
    {
        let bits: u32 = (((module.module_id() as u32) << 16) | (kind.get_encode_code() as u32))
            | 0x3;
        proof {
            let m = module.id();
            let k = kind.packed();
            assert(k < 0x10000 ==> ((((m as u32) << 16) | (k as u32)) >> 16) as u16 == m)
                by (bit_vector);
            assert(((((m as u32) << 16) | (k as u32)) & 0xFFFF) as u16 == k) by (bit_vector);
            assert(k & 0xF == 0 ==> ((((m as u32) << 16) | (k as u32)) | 0x3) & 0xF == 0x3)
                by (bit_vector);
            assert(k & 0xF == 0 ==> ((((m as u32) << 16) | (k as u32)) | 0x3) & 0xFFFF_FFFCu32 == (
            ((m as u32) << 16) | (k as u32))) by (bit_vector);
        }
        Repr { data: ReprData::Immediate(bits) }
    }

    /// A heap record with a fixed static message.
    pub fn new_simple_msg(module: RModule, kind: RErrorKind, msg: &'static str) -> (r: Self)
        requires
            kind.wf(),
        ensures
            r.wf(),
            !r.is_immediate(),
            r.spec_type_id() == spec_type_id_of(module.id(), kind.packed()),
            r.spec_module_id() == module.id(),
            r.spec_kind_bits() == kind.packed(),
            r.spec_msg() == Some(msg@),
    {
        let tid: u32 = ((module.module_id() as u32) << 16) | (kind.get_encode_code() as u32);
        proof {
            let m = module.id();
            let k = kind.packed();
            assert(k < 0x10000 ==> ((((m as u32) << 16) | (k as u32)) >> 16) as u16 == m)
                by (bit_vector);
            assert(((((m as u32) << 16) | (k as u32)) & 0xFFFF) as u16 == k) by (bit_vector);
            assert(k & 0xF == 0 ==> (((m as u32) << 16) | (k as u32)) & 0xF == 0) by (bit_vector);
        }
        Repr { data: ReprData::Heap(ErrorData::SimpleMessage(tid, msg)) }
    }

    /// A heap record with an owned message.
    pub fn new_custom_msg(module: RModule, kind: RErrorKind, msg: String) -> (r: Self)
        requires
            kind.wf(),
        ensures
            r.wf(),
            !r.is_immediate(),
            r.spec_type_id() == spec_type_id_of(module.id(), kind.packed()),
            r.spec_module_id() == module.id(),
            r.spec_kind_bits() == kind.packed(),
            r.spec_msg() == Some(msg@),
    {
        let tid: u32 = ((module.module_id() as u32) << 16) | (kind.get_encode_code() as u32);
        proof {
            let m = module.id();
            let k = kind.packed();
            assert(k < 0x10000 ==> ((((m as u32) << 16) | (k as u32)) >> 16) as u16 == m)
                by (bit_vector);
            assert(((((m as u32) << 16) | (k as u32)) & 0xFFFF) as u16 == k) by (bit_vector);
            assert(k & 0xF == 0 ==> (((m as u32) << 16) | (k as u32)) & 0xF == 0) by (bit_vector);
        }
        Repr { data: ReprData::Heap(ErrorData::CustomMessage(tid, msg)) }
    }

    /// Reads the type id back: an immediate word is stripped of its tag, a
    /// record is consulted directly.
    pub fn error_type_id(&self) -> (r: u32)
        ensures
            r == self.spec_type_id(),
    {
        match &self.data {
            ReprData::Immediate(bits) => *bits & 0xFFFF_FFFC,
            ReprData::Heap(d) => d.error_type_id(),
        }
    }

    /// Renders this error as
    /// `<kind-text>. <message-or-'Null'>. FROM '<module-name>'`.
    pub fn render(&self, registry: &ModuleRegistry) -> (r: String)
        requires
            self.wf(),
            registry.wf(),
            registry@.contains_key(self.spec_module_id()),
        ensures
            r@ == spec_render(self.spec_type_id(), self.spec_msg(), registry@),
    {
        let tid = self.error_type_id();
        proof {
            assert(tid & 0xFFFF < 0x10000) by (bit_vector);
            assert(tid >> 16 < 0x10000) by (bit_vector);
            match &self.data {
                ReprData::Immediate(bits) => {
                    assert(bits & 0xF == 0x3 ==> ((bits & 0xFFFF_FFFCu32) & 0xFFFF) as u16 & 0xF
                        == 0) by (bit_vector);
                },
                ReprData::Heap(d) => {
                    let dt = d.spec_type_id();
                    assert(dt & 0xF == 0 ==> ((dt & 0xFFFF) as u16) & 0xF == 0) by (bit_vector);
                },
            }
        }
        let kind = RErrorKind::from_encode_code((tid & 0xFFFF) as u16);
        let module_id = (tid >> 16) as u16;
        let name = registry.resolve(module_id);
        let mut s = kind.render();
        s.append(". ");
        match &self.data {
            ReprData::Immediate(_) => {
                s.append("Null");
            },
            ReprData::Heap(d) => {
                s.append(d.error_msg());
            },
        }
        s.append(". FROM '");
        s.append(name.as_str());
        s.append("'");
        proof {
            assert(s@ =~= spec_render(self.spec_type_id(), self.spec_msg(), registry@));
        }
        s
    }
}

/// The message part of the rendered text: the message itself, or `Null`
/// where none is carried.
pub open spec fn spec_message_text(msg: Option<Seq<char>>) -> Seq<char> {
    match msg {
        None => "Null"@,
        Some(m) => m,
    }
}

/// The full rendered text of an error with type id `tid` and message
/// `msg`, with module names resolved in `names`.
pub open spec fn spec_render(tid: u32, msg: Option<Seq<char>>, names: Map<u16, Seq<char>>) -> Seq<
    char,
> {
    spec_kind_text((tid & 0xFFFF) as u16) + ". "@ + spec_message_text(msg) + ". FROM '"@ + names[(
    tid >> 16) as u16] + "'"@
}

impl PartialEq for Repr {
    /// Errors compare by classification alone: equal type ids make equal
    /// errors, whatever messages they carry.
    fn eq(&self, other: &Self) -> (r: bool) {
        self.error_type_id() == other.error_type_id()
    }
}

impl vstd::std_specs::cmp::PartialEqSpecImpl for Repr {
    open spec fn obeys_eq_spec() -> bool {
        true
    }

    open spec fn eq_spec(&self, other: &Repr) -> bool {
        self.spec_type_id() == other.spec_type_id()
    }
}

/// Law: two errors built from the same module identity and kind are equal,
/// whether or not either carries a message and whatever the messages say.
pub proof fn lemma_equality_ignores_message(a: Repr, b: Repr, module: u16, packed_kind: u16)
    requires
        a.spec_type_id() == spec_type_id_of(module, packed_kind),
        b.spec_type_id() == spec_type_id_of(module, packed_kind),
    ensures
        a.eq_spec(&b),
{
}

/// The public error value: a representation that must be consumed — turned
/// into a `Result` with `to_err`, or acknowledged with `ignore` — before
/// it goes out of scope.
pub struct RError {
    data: Option<Repr>,
}

impl RError {
    /// The wrapped representation.
    pub closed spec fn repr(&self) -> Repr {
        self.data->Some_0
    }

    /// A live handle always wraps a representation; the absent case is the
    /// sentinel left behind once the handle is consumed.
    pub closed spec fn wf(&self) -> bool {
        self.data is Some && self.repr().wf()
    }

    /// An error with no message: the allocation-free fast path.
    pub fn new_simple(module: RModule, kind: RErrorKind) -> (r: Self)
        requires
            kind.wf(),
        ensures
            r.wf(),
            r.repr().is_immediate(),
            r.repr().spec_type_id() == spec_type_id_of(module.id(), kind.packed()),
            r.repr().spec_module_id() == module.id(),
            r.repr().spec_kind_bits() == kind.packed(),
            r.repr().spec_msg() is None,
    {
        RError { data: Some(Repr::new_simple(module, kind)) }
    }

    /// An error carrying a fixed static message; allocates its record.
    pub fn new_simple_msg(module: RModule, kind: RErrorKind, msg: &'static str) -> (r: Self)
        requires
            kind.wf(),
        ensures
            r.wf(),
            !r.repr().is_immediate(),
            r.repr().spec_type_id() == spec_type_id_of(module.id(), kind.packed()),
            r.repr().spec_module_id() == module.id(),
            r.repr().spec_kind_bits() == kind.packed(),
            r.repr().spec_msg() == Some(msg@),
    {
        RError { data: Some(Repr::new_simple_msg(module, kind, msg)) }
    }

    /// An error carrying an owned message; allocates its record.
    pub fn new_custom_msg(module: RModule, kind: RErrorKind, msg: String) -> (r: Self)
        requires
            kind.wf(),
        ensures
            r.wf(),
            !r.repr().is_immediate(),
            r.repr().spec_type_id() == spec_type_id_of(module.id(), kind.packed()),
            r.repr().spec_module_id() == module.id(),
            r.repr().spec_kind_bits() == kind.packed(),
            r.repr().spec_msg() == Some(msg@),
    {
        RError { data: Some(Repr::new_custom_msg(module, kind, msg)) }
    }

    /// Consumes the handle into the error branch of a `Result`: the normal
    /// way to propagate it to a caller.
    pub fn to_err<T>(self) -> (r: Result<T, Self>)
        ensures
            r == Result::<T, Self>::Err(self),
    {
        Err(self)
    }

    /// Acknowledges the error and drops it without propagating it: the
    /// other sanctioned way to consume the handle.
    pub fn ignore(self) {
        let mut this = self;
        let _ = this.data.take();
    }

    /// Whether this error took the allocation-free immediate form.
    pub fn is_allocation_free(&self) -> (r: bool)
        requires
            self.wf(),
        ensures
            r == self.repr().is_immediate(),
    {
        match &self.data {
            Some(repr) => match &repr.data {
                ReprData::Immediate(_) => true,
                ReprData::Heap(_) => false,
            },
            None => false,
        }
    }

    /// Reads the wrapped representation's type id.
    pub fn error_type_id(&self) -> (r: u32)
        requires
            self.wf(),
        ensures
            r == self.repr().spec_type_id(),
    {
        match &self.data {
            Some(repr) => repr.error_type_id(),
            None => vstd::pervasive::unreached(),
        }
    }

    /// Renders the wrapped error's text.
    pub fn render(&self, registry: &ModuleRegistry) -> (r: String)
        requires
            self.wf(),
            registry.wf(),
            registry@.contains_key(self.repr().spec_module_id()),
        ensures
            r@ == spec_render(self.repr().spec_type_id(), self.repr().spec_msg(), registry@),
    {
        match &self.data {
            Some(repr) => repr.render(registry),
            None => vstd::pervasive::unreached(),
        }
    }
}

} // verus!
