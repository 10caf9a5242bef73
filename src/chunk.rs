use vstd::prelude::*;

verus! {

broadcast use vstd::std_specs::vec::axiom_vec_index_decreases;

/// Header field whose bytes differ from what this loader accepts.
#[derive(Clone, Copy, Debug, PartialEq, Eq, Structural)]
pub enum HeaderField {
    Signature,
    Version,
    Format,
    LuacData,
    CIntSize,
    SizeTSize,
    InstructionSize,
    IntegerSize,
    NumberSize,
    /// The integer canary, which reveals the byte order of the writer.
    Endianness,
    /// The float canary, which reveals the writer's float representation.
    FloatFormat,
}

/// Why a chunk could not be loaded.
#[derive(Clone, Copy, Debug, PartialEq, Eq, Structural)]
pub enum ChunkError {
    /// The buffer ended before a read completed.
    UnexpectedEof,
    /// A header field does not hold the expected bytes.
    HeaderMismatch(HeaderField),
    /// The bytes of a string are not valid UTF-8.
    InvalidEncoding,
    /// A constant carries an unknown tag byte.
    CorruptConstant(u8),
}

/// Describes where a closure finds a captured variable.
#[derive(Clone, Copy, Debug, PartialEq, Eq, Structural)]
pub struct Upvalue {
    /// Nonzero: a register of the enclosing function; zero: one of its upvalues.
    pub in_stack: u8,
    /// Index into the chosen source.
    pub idx: u8,
}

/// A literal of a function's constant pool.
#[derive(Clone, Debug)]
pub enum Constant {
    Nil,
    Boolean(bool),
    Integer(i64),
    /// A float, held as its IEEE-754 binary64 bit pattern.
    Number(u64),
    ShortString(String),
    LongString(String),
}

/// Debug record of a local variable and the instruction range where it is live.
#[derive(Clone, Debug)]
pub struct LocVar {
    pub var_name: String,
    pub start_pc: u32,
    pub end_pc: u32,
}

/// One compiled function, with its nested functions.
#[derive(Debug)]
pub struct Prototype {
    pub source: String,
    pub line_defined: u32,
    pub last_line_defined: u32,
    pub num_params: u8,
    pub is_vararg: u8,
    pub max_stack_size: u8,
    pub code: Vec<u32>,
    pub constants: Vec<Constant>,
    pub upvalues: Vec<Upvalue>,
    pub protos: Vec<Prototype>,
    pub line_info: Vec<u32>,
    pub loc_vars: Vec<LocVar>,
    pub upvalue_names: Vec<String>,
}

/// Mathematical value of a `Constant`.
pub enum ConstantModel {
    Nil,
    Boolean(bool),
    Integer(i64),
    Number(u64),
    ShortString(Seq<char>),
    LongString(Seq<char>),
}

/// Mathematical value of a `LocVar`.
pub struct LocVarModel {
    pub var_name: Seq<char>,
    pub start_pc: u32,
    pub end_pc: u32,
}

/// Mathematical value of a `Prototype`.
pub struct ProtoModel {
    pub source: Seq<char>,
    pub line_defined: u32,
    pub last_line_defined: u32,
    pub num_params: u8,
    pub is_vararg: u8,
    pub max_stack_size: u8,
    pub code: Seq<u32>,
    pub constants: Seq<ConstantModel>,
    pub upvalues: Seq<Upvalue>,
    pub protos: Seq<ProtoModel>,
    pub line_info: Seq<u32>,
    pub loc_vars: Seq<LocVarModel>,
    pub upvalue_names: Seq<Seq<char>>,
}

impl DeepView for Upvalue {
    type V = Upvalue;

    open spec fn deep_view(&self) -> Upvalue {
        *self
    }
}

impl DeepView for Constant {
    type V = ConstantModel;

    open spec fn deep_view(&self) -> ConstantModel {
        match self {
            Constant::Nil => ConstantModel::Nil,
            Constant::Boolean(b) => ConstantModel::Boolean(*b),
            Constant::Integer(i) => ConstantModel::Integer(*i),
            Constant::Number(bits) => ConstantModel::Number(*bits),
            Constant::ShortString(s) => ConstantModel::ShortString(s@),
            Constant::LongString(s) => ConstantModel::LongString(s@),
        }
    }
}

impl DeepView for LocVar {
    type V = LocVarModel;

    open spec fn deep_view(&self) -> LocVarModel {
        LocVarModel { var_name: self.var_name@, start_pc: self.start_pc, end_pc: self.end_pc }
    }
}

/// Model of a function record and, recursively, of its nested functions.
pub open spec fn proto_model(p: &Prototype) -> ProtoModel
    decreases p,
{
    ProtoModel {
        source: p.source@,
        line_defined: p.line_defined,
        last_line_defined: p.last_line_defined,
        num_params: p.num_params,
        is_vararg: p.is_vararg,
        max_stack_size: p.max_stack_size,
        code: p.code@,
        constants: p.constants.deep_view(),
        upvalues: p.upvalues@,
        protos: Seq::new(
            p.protos@.len(),
            |i: int|
                if 0 <= i < p.protos@.len() {
                    proto_model(&p.protos[i])
                } else {
                    arbitrary()
                },
        ),
        line_info: p.line_info@,
        loc_vars: p.loc_vars.deep_view(),
        upvalue_names: p.upvalue_names.deep_view(),
    }
}

impl DeepView for Prototype {
    type V = ProtoModel;

    open spec fn deep_view(&self) -> ProtoModel {
        proto_model(self)
    }
}

/// The model of a function record, field by field.
pub proof fn lemma_proto_model(p: &Prototype)
    ensures
        p.deep_view() == (ProtoModel {
            source: p.source@,
            line_defined: p.line_defined,
            last_line_defined: p.last_line_defined,
            num_params: p.num_params,
            is_vararg: p.is_vararg,
            max_stack_size: p.max_stack_size,
            code: p.code@,
            constants: p.constants.deep_view(),
            upvalues: p.upvalues@,
            protos: p.protos.deep_view(),
            line_info: p.line_info@,
            loc_vars: p.loc_vars.deep_view(),
            upvalue_names: p.upvalue_names.deep_view(),
        }),
{
    assert(p.deep_view().protos =~= p.protos.deep_view());
}

} // verus!
