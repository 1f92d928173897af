//! The instruction set: opcodes, array element types and loadable constants.

use crate::error::{ClassFileError, ClassFileResult};
use crate::handle::{ConstantDynamic, ConstantDynamicView, Handle, HandleView};
use crate::text::JavaText;
use vstd::prelude::*;

verus! {

/// An opcode as events name it. The short forms that hold their operand in
/// the opcode byte itself (`iload_0` and the like), the wide forms and `wide`
/// are no opcodes of their own here: decoding turns them into the plain
/// opcode with its operand.
#[derive(Debug, Copy, Clone, PartialEq, Eq, Structural, PartialOrd, Ord, Hash)]
#[non_exhaustive]
pub enum Opcode {
    Nop,
    AConstNull,
    IConstM1,
    IConst0,
    IConst1,
    IConst2,
    IConst3,
    IConst4,
    IConst5,
    LConst0,
    LConst1,
    FConst0,
    FConst1,
    FConst2,
    DConst0,
    DConst1,
    BIPush,
    SIPush,
    Ldc,
    ILoad,
    LLoad,
    FLoad,
    DLoad,
    ALoad,
    IALoad,
    LALoad,
    FALoad,
    DALoad,
    AALoad,
    BALoad,
    CALoad,
    SALoad,
    IStore,
    LStore,
    FStore,
    DStore,
    AStore,
    IAStore,
    LAStore,
    FAStore,
    DAStore,
    AAStore,
    BAStore,
    CAStore,
    SAStore,
    Pop,
    Pop2,
    Dup,
    DupX1,
    DupX2,
    Dup2,
    Dup2X1,
    Dup2X2,
    Swap,
    IAdd,
    LAdd,
    FAdd,
    DAdd,
    ISub,
    LSub,
    FSub,
    DSub,
    IMul,
    LMul,
    FMul,
    DMul,
    IDiv,
    LDiv,
    FDiv,
    DDiv,
    IRem,
    LRem,
    FRem,
    DRem,
    INeg,
    LNeg,
    FNeg,
    DNeg,
    IShl,
    LShl,
    IShr,
    LShr,
    IUShr,
    LUShr,
    IAnd,
    LAnd,
    IOr,
    LOr,
    IXor,
    LXor,
    IInc,
    I2l,
    I2f,
    I2d,
    L2i,
    L2f,
    L2d,
    F2i,
    F2l,
    F2d,
    D2i,
    D2l,
    D2f,
    I2b,
    I2c,
    I2s,
    LCmp,
    FCmpL,
    FCmpG,
    DCmpL,
    DCmpG,
    IfEq,
    IfNe,
    IfLt,
    IfGe,
    IfGt,
    IfLe,
    IfICmpEq,
    IfICmpNe,
    IfICmpLt,
    IfICmpGe,
    IfICmpGt,
    IfICmpLe,
    IfACmpEq,
    IfACmpNe,
    Goto,
    Jsr,
    Ret,
    TableSwitch,
    LookupSwitch,
    IReturn,
    LReturn,
    FReturn,
    DReturn,
    AReturn,
    Return,
    GetStatic,
    PutStatic,
    GetField,
    PutField,
    InvokeVirtual,
    InvokeSpecial,
    InvokeStatic,
    InvokeInterface,
    InvokeDynamic,
    New,
    NewArray,
    ANewArray,
    ArrayLength,
    AThrow,
    CheckCast,
    Instanceof,
    MonitorEnter,
    MonitorExit,
    MultiANewArray,
    IfNull,
    IfNonNull,
}

/// The opcode that an opcode byte stands for.
pub open spec fn spec_opcode(byte: u8) -> Option<Opcode> {
    if byte == 0 {
        Some(Opcode::Nop)
    } else if byte == 1 {
        Some(Opcode::AConstNull)
    } else if byte == 2 {
        Some(Opcode::IConstM1)
    } else if byte == 3 {
        Some(Opcode::IConst0)
    } else if byte == 4 {
        Some(Opcode::IConst1)
    } else if byte == 5 {
        Some(Opcode::IConst2)
    } else if byte == 6 {
        Some(Opcode::IConst3)
    } else if byte == 7 {
        Some(Opcode::IConst4)
    } else if byte == 8 {
        Some(Opcode::IConst5)
    } else if byte == 9 {
        Some(Opcode::LConst0)
    } else if byte == 10 {
        Some(Opcode::LConst1)
    } else if byte == 11 {
        Some(Opcode::FConst0)
    } else if byte == 12 {
        Some(Opcode::FConst1)
    } else if byte == 13 {
        Some(Opcode::FConst2)
    } else if byte == 14 {
        Some(Opcode::DConst0)
    } else if byte == 15 {
        Some(Opcode::DConst1)
    } else if byte == 16 {
        Some(Opcode::BIPush)
    } else if byte == 17 {
        Some(Opcode::SIPush)
    } else if byte == 18 {
        Some(Opcode::Ldc)
    } else if byte == 21 {
        Some(Opcode::ILoad)
    } else if byte == 22 {
        Some(Opcode::LLoad)
    } else if byte == 23 {
        Some(Opcode::FLoad)
    } else if byte == 24 {
        Some(Opcode::DLoad)
    } else if byte == 25 {
        Some(Opcode::ALoad)
    } else if byte == 46 {
        Some(Opcode::IALoad)
    } else if byte == 47 {
        Some(Opcode::LALoad)
    } else if byte == 48 {
        Some(Opcode::FALoad)
    } else if byte == 49 {
        Some(Opcode::DALoad)
    } else if byte == 50 {
        Some(Opcode::AALoad)
    } else if byte == 51 {
        Some(Opcode::BALoad)
    } else if byte == 52 {
        Some(Opcode::CALoad)
    } else if byte == 53 {
        Some(Opcode::SALoad)
    } else if byte == 54 {
        Some(Opcode::IStore)
    } else if byte == 55 {
        Some(Opcode::LStore)
    } else if byte == 56 {
        Some(Opcode::FStore)
    } else if byte == 57 {
        Some(Opcode::DStore)
    } else if byte == 58 {
        Some(Opcode::AStore)
    } else if byte == 79 {
        Some(Opcode::IAStore)
    } else if byte == 80 {
        Some(Opcode::LAStore)
    } else if byte == 81 {
        Some(Opcode::FAStore)
    } else if byte == 82 {
        Some(Opcode::DAStore)
    } else if byte == 83 {
        Some(Opcode::AAStore)
    } else if byte == 84 {
        Some(Opcode::BAStore)
    } else if byte == 85 {
        Some(Opcode::CAStore)
    } else if byte == 86 {
        Some(Opcode::SAStore)
    } else if byte == 87 {
        Some(Opcode::Pop)
    } else if byte == 88 {
        Some(Opcode::Pop2)
    } else if byte == 89 {
        Some(Opcode::Dup)
    } else if byte == 90 {
        Some(Opcode::DupX1)
    } else if byte == 91 {
        Some(Opcode::DupX2)
    } else if byte == 92 {
        Some(Opcode::Dup2)
    } else if byte == 93 {
        Some(Opcode::Dup2X1)
    } else if byte == 94 {
        Some(Opcode::Dup2X2)
    } else if byte == 95 {
        Some(Opcode::Swap)
    } else if byte == 96 {
        Some(Opcode::IAdd)
    } else if byte == 97 {
        Some(Opcode::LAdd)
    } else if byte == 98 {
        Some(Opcode::FAdd)
    } else if byte == 99 {
        Some(Opcode::DAdd)
    } else if byte == 100 {
        Some(Opcode::ISub)
    } else if byte == 101 {
        Some(Opcode::LSub)
    } else if byte == 102 {
        Some(Opcode::FSub)
    } else if byte == 103 {
        Some(Opcode::DSub)
    } else if byte == 104 {
        Some(Opcode::IMul)
    } else if byte == 105 {
        Some(Opcode::LMul)
    } else if byte == 106 {
        Some(Opcode::FMul)
    } else if byte == 107 {
        Some(Opcode::DMul)
    } else if byte == 108 {
        Some(Opcode::IDiv)
    } else if byte == 109 {
        Some(Opcode::LDiv)
    } else if byte == 110 {
        Some(Opcode::FDiv)
    } else if byte == 111 {
        Some(Opcode::DDiv)
    } else if byte == 112 {
        Some(Opcode::IRem)
    } else if byte == 113 {
        Some(Opcode::LRem)
    } else if byte == 114 {
        Some(Opcode::FRem)
    } else if byte == 115 {
        Some(Opcode::DRem)
    } else if byte == 116 {
        Some(Opcode::INeg)
    } else if byte == 117 {
        Some(Opcode::LNeg)
    } else if byte == 118 {
        Some(Opcode::FNeg)
    } else if byte == 119 {
        Some(Opcode::DNeg)
    } else if byte == 120 {
        Some(Opcode::IShl)
    } else if byte == 121 {
        Some(Opcode::LShl)
    } else if byte == 122 {
        Some(Opcode::IShr)
    } else if byte == 123 {
        Some(Opcode::LShr)
    } else if byte == 124 {
        Some(Opcode::IUShr)
    } else if byte == 125 {
        Some(Opcode::LUShr)
    } else if byte == 126 {
        Some(Opcode::IAnd)
    } else if byte == 127 {
        Some(Opcode::LAnd)
    } else if byte == 128 {
        Some(Opcode::IOr)
    } else if byte == 129 {
        Some(Opcode::LOr)
    } else if byte == 130 {
        Some(Opcode::IXor)
    } else if byte == 131 {
        Some(Opcode::LXor)
    } else if byte == 132 {
        Some(Opcode::IInc)
    } else if byte == 133 {
        Some(Opcode::I2l)
    } else if byte == 134 {
        Some(Opcode::I2f)
    } else if byte == 135 {
        Some(Opcode::I2d)
    } else if byte == 136 {
        Some(Opcode::L2i)
    } else if byte == 137 {
        Some(Opcode::L2f)
    } else if byte == 138 {
        Some(Opcode::L2d)
    } else if byte == 139 {
        Some(Opcode::F2i)
    } else if byte == 140 {
        Some(Opcode::F2l)
    } else if byte == 141 {
        Some(Opcode::F2d)
    } else if byte == 142 {
        Some(Opcode::D2i)
    } else if byte == 143 {
        Some(Opcode::D2l)
    } else if byte == 144 {
        Some(Opcode::D2f)
    } else if byte == 145 {
        Some(Opcode::I2b)
    } else if byte == 146 {
        Some(Opcode::I2c)
    } else if byte == 147 {
        Some(Opcode::I2s)
    } else if byte == 148 {
        Some(Opcode::LCmp)
    } else if byte == 149 {
        Some(Opcode::FCmpL)
    } else if byte == 150 {
        Some(Opcode::FCmpG)
    } else if byte == 151 {
        Some(Opcode::DCmpL)
    } else if byte == 152 {
        Some(Opcode::DCmpG)
    } else if byte == 153 {
        Some(Opcode::IfEq)
    } else if byte == 154 {
        Some(Opcode::IfNe)
    } else if byte == 155 {
        Some(Opcode::IfLt)
    } else if byte == 156 {
        Some(Opcode::IfGe)
    } else if byte == 157 {
        Some(Opcode::IfGt)
    } else if byte == 158 {
        Some(Opcode::IfLe)
    } else if byte == 159 {
        Some(Opcode::IfICmpEq)
    } else if byte == 160 {
        Some(Opcode::IfICmpNe)
    } else if byte == 161 {
        Some(Opcode::IfICmpLt)
    } else if byte == 162 {
        Some(Opcode::IfICmpGe)
    } else if byte == 163 {
        Some(Opcode::IfICmpGt)
    } else if byte == 164 {
        Some(Opcode::IfICmpLe)
    } else if byte == 165 {
        Some(Opcode::IfACmpEq)
    } else if byte == 166 {
        Some(Opcode::IfACmpNe)
    } else if byte == 167 {
        Some(Opcode::Goto)
    } else if byte == 168 {
        Some(Opcode::Jsr)
    } else if byte == 169 {
        Some(Opcode::Ret)
    } else if byte == 170 {
        Some(Opcode::TableSwitch)
    } else if byte == 171 {
        Some(Opcode::LookupSwitch)
    } else if byte == 172 {
        Some(Opcode::IReturn)
    } else if byte == 173 {
        Some(Opcode::LReturn)
    } else if byte == 174 {
        Some(Opcode::FReturn)
    } else if byte == 175 {
        Some(Opcode::DReturn)
    } else if byte == 176 {
        Some(Opcode::AReturn)
    } else if byte == 177 {
        Some(Opcode::Return)
    } else if byte == 178 {
        Some(Opcode::GetStatic)
    } else if byte == 179 {
        Some(Opcode::PutStatic)
    } else if byte == 180 {
        Some(Opcode::GetField)
    } else if byte == 181 {
        Some(Opcode::PutField)
    } else if byte == 182 {
        Some(Opcode::InvokeVirtual)
    } else if byte == 183 {
        Some(Opcode::InvokeSpecial)
    } else if byte == 184 {
        Some(Opcode::InvokeStatic)
    } else if byte == 185 {
        Some(Opcode::InvokeInterface)
    } else if byte == 186 {
        Some(Opcode::InvokeDynamic)
    } else if byte == 187 {
        Some(Opcode::New)
    } else if byte == 188 {
        Some(Opcode::NewArray)
    } else if byte == 189 {
        Some(Opcode::ANewArray)
    } else if byte == 190 {
        Some(Opcode::ArrayLength)
    } else if byte == 191 {
        Some(Opcode::AThrow)
    } else if byte == 192 {
        Some(Opcode::CheckCast)
    } else if byte == 193 {
        Some(Opcode::Instanceof)
    } else if byte == 194 {
        Some(Opcode::MonitorEnter)
    } else if byte == 195 {
        Some(Opcode::MonitorExit)
    } else if byte == 197 {
        Some(Opcode::MultiANewArray)
    } else if byte == 198 {
        Some(Opcode::IfNull)
    } else if byte == 199 {
        Some(Opcode::IfNonNull)
    } else {
        None
    }
}

impl Opcode {
    /// The opcode byte of this opcode.
    pub open spec fn spec_number(self) -> u8 {
        match self {
            Opcode::Nop => 0,
            Opcode::AConstNull => 1,
            Opcode::IConstM1 => 2,
            Opcode::IConst0 => 3,
            Opcode::IConst1 => 4,
            Opcode::IConst2 => 5,
            Opcode::IConst3 => 6,
            Opcode::IConst4 => 7,
            Opcode::IConst5 => 8,
            Opcode::LConst0 => 9,
            Opcode::LConst1 => 10,
            Opcode::FConst0 => 11,
            Opcode::FConst1 => 12,
            Opcode::FConst2 => 13,
            Opcode::DConst0 => 14,
            Opcode::DConst1 => 15,
            Opcode::BIPush => 16,
            Opcode::SIPush => 17,
            Opcode::Ldc => 18,
            Opcode::ILoad => 21,
            Opcode::LLoad => 22,
            Opcode::FLoad => 23,
            Opcode::DLoad => 24,
            Opcode::ALoad => 25,
            Opcode::IALoad => 46,
            Opcode::LALoad => 47,
            Opcode::FALoad => 48,
            Opcode::DALoad => 49,
            Opcode::AALoad => 50,
            Opcode::BALoad => 51,
            Opcode::CALoad => 52,
            Opcode::SALoad => 53,
            Opcode::IStore => 54,
            Opcode::LStore => 55,
            Opcode::FStore => 56,
            Opcode::DStore => 57,
            Opcode::AStore => 58,
            Opcode::IAStore => 79,
            Opcode::LAStore => 80,
            Opcode::FAStore => 81,
            Opcode::DAStore => 82,
            Opcode::AAStore => 83,
            Opcode::BAStore => 84,
            Opcode::CAStore => 85,
            Opcode::SAStore => 86,
            Opcode::Pop => 87,
            Opcode::Pop2 => 88,
            Opcode::Dup => 89,
            Opcode::DupX1 => 90,
            Opcode::DupX2 => 91,
            Opcode::Dup2 => 92,
            Opcode::Dup2X1 => 93,
            Opcode::Dup2X2 => 94,
            Opcode::Swap => 95,
            Opcode::IAdd => 96,
            Opcode::LAdd => 97,
            Opcode::FAdd => 98,
            Opcode::DAdd => 99,
            Opcode::ISub => 100,
            Opcode::LSub => 101,
            Opcode::FSub => 102,
            Opcode::DSub => 103,
            Opcode::IMul => 104,
            Opcode::LMul => 105,
            Opcode::FMul => 106,
            Opcode::DMul => 107,
            Opcode::IDiv => 108,
            Opcode::LDiv => 109,
            Opcode::FDiv => 110,
            Opcode::DDiv => 111,
            Opcode::IRem => 112,
            Opcode::LRem => 113,
            Opcode::FRem => 114,
            Opcode::DRem => 115,
            Opcode::INeg => 116,
            Opcode::LNeg => 117,
            Opcode::FNeg => 118,
            Opcode::DNeg => 119,
            Opcode::IShl => 120,
            Opcode::LShl => 121,
            Opcode::IShr => 122,
            Opcode::LShr => 123,
            Opcode::IUShr => 124,
            Opcode::LUShr => 125,
            Opcode::IAnd => 126,
            Opcode::LAnd => 127,
            Opcode::IOr => 128,
            Opcode::LOr => 129,
            Opcode::IXor => 130,
            Opcode::LXor => 131,
            Opcode::IInc => 132,
            Opcode::I2l => 133,
            Opcode::I2f => 134,
            Opcode::I2d => 135,
            Opcode::L2i => 136,
            Opcode::L2f => 137,
            Opcode::L2d => 138,
            Opcode::F2i => 139,
            Opcode::F2l => 140,
            Opcode::F2d => 141,
            Opcode::D2i => 142,
            Opcode::D2l => 143,
            Opcode::D2f => 144,
            Opcode::I2b => 145,
            Opcode::I2c => 146,
            Opcode::I2s => 147,
            Opcode::LCmp => 148,
            Opcode::FCmpL => 149,
            Opcode::FCmpG => 150,
            Opcode::DCmpL => 151,
            Opcode::DCmpG => 152,
            Opcode::IfEq => 153,
            Opcode::IfNe => 154,
            Opcode::IfLt => 155,
            Opcode::IfGe => 156,
            Opcode::IfGt => 157,
            Opcode::IfLe => 158,
            Opcode::IfICmpEq => 159,
            Opcode::IfICmpNe => 160,
            Opcode::IfICmpLt => 161,
            Opcode::IfICmpGe => 162,
            Opcode::IfICmpGt => 163,
            Opcode::IfICmpLe => 164,
            Opcode::IfACmpEq => 165,
            Opcode::IfACmpNe => 166,
            Opcode::Goto => 167,
            Opcode::Jsr => 168,
            Opcode::Ret => 169,
            Opcode::TableSwitch => 170,
            Opcode::LookupSwitch => 171,
            Opcode::IReturn => 172,
            Opcode::LReturn => 173,
            Opcode::FReturn => 174,
            Opcode::DReturn => 175,
            Opcode::AReturn => 176,
            Opcode::Return => 177,
            Opcode::GetStatic => 178,
            Opcode::PutStatic => 179,
            Opcode::GetField => 180,
            Opcode::PutField => 181,
            Opcode::InvokeVirtual => 182,
            Opcode::InvokeSpecial => 183,
            Opcode::InvokeStatic => 184,
            Opcode::InvokeInterface => 185,
            Opcode::InvokeDynamic => 186,
            Opcode::New => 187,
            Opcode::NewArray => 188,
            Opcode::ANewArray => 189,
            Opcode::ArrayLength => 190,
            Opcode::AThrow => 191,
            Opcode::CheckCast => 192,
            Opcode::Instanceof => 193,
            Opcode::MonitorEnter => 194,
            Opcode::MonitorExit => 195,
            Opcode::MultiANewArray => 197,
            Opcode::IfNull => 198,
            Opcode::IfNonNull => 199,
        }
    }

    pub fn from_u8(byte: u8) -> (r: ClassFileResult<Opcode>)
        ensures
            r == match spec_opcode(byte) {
                Some(opcode) => Ok::<Opcode, ClassFileError>(opcode),
                None => Err(ClassFileError::BadOpcode(byte)),
            },
            r is Ok ==> r->Ok_0.spec_number() == byte,
    {
        match byte {
            0 => Ok(Opcode::Nop),
            1 => Ok(Opcode::AConstNull),
            2 => Ok(Opcode::IConstM1),
            3 => Ok(Opcode::IConst0),
            4 => Ok(Opcode::IConst1),
            5 => Ok(Opcode::IConst2),
            6 => Ok(Opcode::IConst3),
            7 => Ok(Opcode::IConst4),
            8 => Ok(Opcode::IConst5),
            9 => Ok(Opcode::LConst0),
            10 => Ok(Opcode::LConst1),
            11 => Ok(Opcode::FConst0),
            12 => Ok(Opcode::FConst1),
            13 => Ok(Opcode::FConst2),
            14 => Ok(Opcode::DConst0),
            15 => Ok(Opcode::DConst1),
            16 => Ok(Opcode::BIPush),
            17 => Ok(Opcode::SIPush),
            18 => Ok(Opcode::Ldc),
            21 => Ok(Opcode::ILoad),
            22 => Ok(Opcode::LLoad),
            23 => Ok(Opcode::FLoad),
            24 => Ok(Opcode::DLoad),
            25 => Ok(Opcode::ALoad),
            46 => Ok(Opcode::IALoad),
            47 => Ok(Opcode::LALoad),
            48 => Ok(Opcode::FALoad),
            49 => Ok(Opcode::DALoad),
            50 => Ok(Opcode::AALoad),
            51 => Ok(Opcode::BALoad),
            52 => Ok(Opcode::CALoad),
            53 => Ok(Opcode::SALoad),
            54 => Ok(Opcode::IStore),
            55 => Ok(Opcode::LStore),
            56 => Ok(Opcode::FStore),
            57 => Ok(Opcode::DStore),
            58 => Ok(Opcode::AStore),
            79 => Ok(Opcode::IAStore),
            80 => Ok(Opcode::LAStore),
            81 => Ok(Opcode::FAStore),
            82 => Ok(Opcode::DAStore),
            83 => Ok(Opcode::AAStore),
            84 => Ok(Opcode::BAStore),
            85 => Ok(Opcode::CAStore),
            86 => Ok(Opcode::SAStore),
            87 => Ok(Opcode::Pop),
            88 => Ok(Opcode::Pop2),
            89 => Ok(Opcode::Dup),
            90 => Ok(Opcode::DupX1),
            91 => Ok(Opcode::DupX2),
            92 => Ok(Opcode::Dup2),
            93 => Ok(Opcode::Dup2X1),
            94 => Ok(Opcode::Dup2X2),
            95 => Ok(Opcode::Swap),
            96 => Ok(Opcode::IAdd),
            97 => Ok(Opcode::LAdd),
            98 => Ok(Opcode::FAdd),
            99 => Ok(Opcode::DAdd),
            100 => Ok(Opcode::ISub),
            101 => Ok(Opcode::LSub),
            102 => Ok(Opcode::FSub),
            103 => Ok(Opcode::DSub),
            104 => Ok(Opcode::IMul),
            105 => Ok(Opcode::LMul),
            106 => Ok(Opcode::FMul),
            107 => Ok(Opcode::DMul),
            108 => Ok(Opcode::IDiv),
            109 => Ok(Opcode::LDiv),
            110 => Ok(Opcode::FDiv),
            111 => Ok(Opcode::DDiv),
            112 => Ok(Opcode::IRem),
            113 => Ok(Opcode::LRem),
            114 => Ok(Opcode::FRem),
            115 => Ok(Opcode::DRem),
            116 => Ok(Opcode::INeg),
            117 => Ok(Opcode::LNeg),
            118 => Ok(Opcode::FNeg),
            119 => Ok(Opcode::DNeg),
            120 => Ok(Opcode::IShl),
            121 => Ok(Opcode::LShl),
            122 => Ok(Opcode::IShr),
            123 => Ok(Opcode::LShr),
            124 => Ok(Opcode::IUShr),
            125 => Ok(Opcode::LUShr),
            126 => Ok(Opcode::IAnd),
            127 => Ok(Opcode::LAnd),
            128 => Ok(Opcode::IOr),
            129 => Ok(Opcode::LOr),
            130 => Ok(Opcode::IXor),
            131 => Ok(Opcode::LXor),
            132 => Ok(Opcode::IInc),
            133 => Ok(Opcode::I2l),
            134 => Ok(Opcode::I2f),
            135 => Ok(Opcode::I2d),
            136 => Ok(Opcode::L2i),
            137 => Ok(Opcode::L2f),
            138 => Ok(Opcode::L2d),
            139 => Ok(Opcode::F2i),
            140 => Ok(Opcode::F2l),
            141 => Ok(Opcode::F2d),
            142 => Ok(Opcode::D2i),
            143 => Ok(Opcode::D2l),
            144 => Ok(Opcode::D2f),
            145 => Ok(Opcode::I2b),
            146 => Ok(Opcode::I2c),
            147 => Ok(Opcode::I2s),
            148 => Ok(Opcode::LCmp),
            149 => Ok(Opcode::FCmpL),
            150 => Ok(Opcode::FCmpG),
            151 => Ok(Opcode::DCmpL),
            152 => Ok(Opcode::DCmpG),
            153 => Ok(Opcode::IfEq),
            154 => Ok(Opcode::IfNe),
            155 => Ok(Opcode::IfLt),
            156 => Ok(Opcode::IfGe),
            157 => Ok(Opcode::IfGt),
            158 => Ok(Opcode::IfLe),
            159 => Ok(Opcode::IfICmpEq),
            160 => Ok(Opcode::IfICmpNe),
            161 => Ok(Opcode::IfICmpLt),
            162 => Ok(Opcode::IfICmpGe),
            163 => Ok(Opcode::IfICmpGt),
            164 => Ok(Opcode::IfICmpLe),
            165 => Ok(Opcode::IfACmpEq),
            166 => Ok(Opcode::IfACmpNe),
            167 => Ok(Opcode::Goto),
            168 => Ok(Opcode::Jsr),
            169 => Ok(Opcode::Ret),
            170 => Ok(Opcode::TableSwitch),
            171 => Ok(Opcode::LookupSwitch),
            172 => Ok(Opcode::IReturn),
            173 => Ok(Opcode::LReturn),
            174 => Ok(Opcode::FReturn),
            175 => Ok(Opcode::DReturn),
            176 => Ok(Opcode::AReturn),
            177 => Ok(Opcode::Return),
            178 => Ok(Opcode::GetStatic),
            179 => Ok(Opcode::PutStatic),
            180 => Ok(Opcode::GetField),
            181 => Ok(Opcode::PutField),
            182 => Ok(Opcode::InvokeVirtual),
            183 => Ok(Opcode::InvokeSpecial),
            184 => Ok(Opcode::InvokeStatic),
            185 => Ok(Opcode::InvokeInterface),
            186 => Ok(Opcode::InvokeDynamic),
            187 => Ok(Opcode::New),
            188 => Ok(Opcode::NewArray),
            189 => Ok(Opcode::ANewArray),
            190 => Ok(Opcode::ArrayLength),
            191 => Ok(Opcode::AThrow),
            192 => Ok(Opcode::CheckCast),
            193 => Ok(Opcode::Instanceof),
            194 => Ok(Opcode::MonitorEnter),
            195 => Ok(Opcode::MonitorExit),
            197 => Ok(Opcode::MultiANewArray),
            198 => Ok(Opcode::IfNull),
            199 => Ok(Opcode::IfNonNull),
            _ => Err(ClassFileError::BadOpcode(byte)),
        }
    }

    /// The opcode byte of this opcode.
    #[verifier::when_used_as_spec(spec_number)]
    pub fn number(self) -> (r: u8)
        ensures
            r == self.spec_number(),
            spec_opcode(r) == Some(self),
    {
        match self {
            Opcode::Nop => 0,
            Opcode::AConstNull => 1,
            Opcode::IConstM1 => 2,
            Opcode::IConst0 => 3,
            Opcode::IConst1 => 4,
            Opcode::IConst2 => 5,
            Opcode::IConst3 => 6,
            Opcode::IConst4 => 7,
            Opcode::IConst5 => 8,
            Opcode::LConst0 => 9,
            Opcode::LConst1 => 10,
            Opcode::FConst0 => 11,
            Opcode::FConst1 => 12,
            Opcode::FConst2 => 13,
            Opcode::DConst0 => 14,
            Opcode::DConst1 => 15,
            Opcode::BIPush => 16,
            Opcode::SIPush => 17,
            Opcode::Ldc => 18,
            Opcode::ILoad => 21,
            Opcode::LLoad => 22,
            Opcode::FLoad => 23,
            Opcode::DLoad => 24,
            Opcode::ALoad => 25,
            Opcode::IALoad => 46,
            Opcode::LALoad => 47,
            Opcode::FALoad => 48,
            Opcode::DALoad => 49,
            Opcode::AALoad => 50,
            Opcode::BALoad => 51,
            Opcode::CALoad => 52,
            Opcode::SALoad => 53,
            Opcode::IStore => 54,
            Opcode::LStore => 55,
            Opcode::FStore => 56,
            Opcode::DStore => 57,
            Opcode::AStore => 58,
            Opcode::IAStore => 79,
            Opcode::LAStore => 80,
            Opcode::FAStore => 81,
            Opcode::DAStore => 82,
            Opcode::AAStore => 83,
            Opcode::BAStore => 84,
            Opcode::CAStore => 85,
            Opcode::SAStore => 86,
            Opcode::Pop => 87,
            Opcode::Pop2 => 88,
            Opcode::Dup => 89,
            Opcode::DupX1 => 90,
            Opcode::DupX2 => 91,
            Opcode::Dup2 => 92,
            Opcode::Dup2X1 => 93,
            Opcode::Dup2X2 => 94,
            Opcode::Swap => 95,
            Opcode::IAdd => 96,
            Opcode::LAdd => 97,
            Opcode::FAdd => 98,
            Opcode::DAdd => 99,
            Opcode::ISub => 100,
            Opcode::LSub => 101,
            Opcode::FSub => 102,
            Opcode::DSub => 103,
            Opcode::IMul => 104,
            Opcode::LMul => 105,
            Opcode::FMul => 106,
            Opcode::DMul => 107,
            Opcode::IDiv => 108,
            Opcode::LDiv => 109,
            Opcode::FDiv => 110,
            Opcode::DDiv => 111,
            Opcode::IRem => 112,
            Opcode::LRem => 113,
            Opcode::FRem => 114,
            Opcode::DRem => 115,
            Opcode::INeg => 116,
            Opcode::LNeg => 117,
            Opcode::FNeg => 118,
            Opcode::DNeg => 119,
            Opcode::IShl => 120,
            Opcode::LShl => 121,
            Opcode::IShr => 122,
            Opcode::LShr => 123,
            Opcode::IUShr => 124,
            Opcode::LUShr => 125,
            Opcode::IAnd => 126,
            Opcode::LAnd => 127,
            Opcode::IOr => 128,
            Opcode::LOr => 129,
            Opcode::IXor => 130,
            Opcode::LXor => 131,
            Opcode::IInc => 132,
            Opcode::I2l => 133,
            Opcode::I2f => 134,
            Opcode::I2d => 135,
            Opcode::L2i => 136,
            Opcode::L2f => 137,
            Opcode::L2d => 138,
            Opcode::F2i => 139,
            Opcode::F2l => 140,
            Opcode::F2d => 141,
            Opcode::D2i => 142,
            Opcode::D2l => 143,
            Opcode::D2f => 144,
            Opcode::I2b => 145,
            Opcode::I2c => 146,
            Opcode::I2s => 147,
            Opcode::LCmp => 148,
            Opcode::FCmpL => 149,
            Opcode::FCmpG => 150,
            Opcode::DCmpL => 151,
            Opcode::DCmpG => 152,
            Opcode::IfEq => 153,
            Opcode::IfNe => 154,
            Opcode::IfLt => 155,
            Opcode::IfGe => 156,
            Opcode::IfGt => 157,
            Opcode::IfLe => 158,
            Opcode::IfICmpEq => 159,
            Opcode::IfICmpNe => 160,
            Opcode::IfICmpLt => 161,
            Opcode::IfICmpGe => 162,
            Opcode::IfICmpGt => 163,
            Opcode::IfICmpLe => 164,
            Opcode::IfACmpEq => 165,
            Opcode::IfACmpNe => 166,
            Opcode::Goto => 167,
            Opcode::Jsr => 168,
            Opcode::Ret => 169,
            Opcode::TableSwitch => 170,
            Opcode::LookupSwitch => 171,
            Opcode::IReturn => 172,
            Opcode::LReturn => 173,
            Opcode::FReturn => 174,
            Opcode::DReturn => 175,
            Opcode::AReturn => 176,
            Opcode::Return => 177,
            Opcode::GetStatic => 178,
            Opcode::PutStatic => 179,
            Opcode::GetField => 180,
            Opcode::PutField => 181,
            Opcode::InvokeVirtual => 182,
            Opcode::InvokeSpecial => 183,
            Opcode::InvokeStatic => 184,
            Opcode::InvokeInterface => 185,
            Opcode::InvokeDynamic => 186,
            Opcode::New => 187,
            Opcode::NewArray => 188,
            Opcode::ANewArray => 189,
            Opcode::ArrayLength => 190,
            Opcode::AThrow => 191,
            Opcode::CheckCast => 192,
            Opcode::Instanceof => 193,
            Opcode::MonitorEnter => 194,
            Opcode::MonitorExit => 195,
            Opcode::MultiANewArray => 197,
            Opcode::IfNull => 198,
            Opcode::IfNonNull => 199,
        }
    }
}

/// The element type of an array that `newarray` makes.
#[derive(Debug, Copy, Clone, PartialEq, Eq, Structural, PartialOrd, Ord, Hash)]
pub enum NewArrayType {
    Boolean,
    Char,
    Float,
    Double,
    Byte,
    Short,
    Int,
    Long,
}

/// The element type that a type code stands for.
pub open spec fn spec_new_array_type(code: u8) -> Option<NewArrayType> {
    if code == 4 {
        Some(NewArrayType::Boolean)
    } else if code == 5 {
        Some(NewArrayType::Char)
    } else if code == 6 {
        Some(NewArrayType::Float)
    } else if code == 7 {
        Some(NewArrayType::Double)
    } else if code == 8 {
        Some(NewArrayType::Byte)
    } else if code == 9 {
        Some(NewArrayType::Short)
    } else if code == 10 {
        Some(NewArrayType::Int)
    } else if code == 11 {
        Some(NewArrayType::Long)
    } else {
        None
    }
}

impl NewArrayType {
    /// The type code of this element type.
    pub open spec fn spec_number(self) -> u8 {
        match self {
            NewArrayType::Boolean => 4,
            NewArrayType::Char => 5,
            NewArrayType::Float => 6,
            NewArrayType::Double => 7,
            NewArrayType::Byte => 8,
            NewArrayType::Short => 9,
            NewArrayType::Int => 10,
            NewArrayType::Long => 11,
        }
    }

    pub fn from_u8(code: u8) -> (r: ClassFileResult<NewArrayType>)
        ensures
            r == match spec_new_array_type(code) {
                Some(ty) => Ok::<NewArrayType, ClassFileError>(ty),
                None => Err(ClassFileError::BadNewArrayType(code)),
            },
            r is Ok ==> r->Ok_0.spec_number() == code,
    {
        match code {
            4 => Ok(NewArrayType::Boolean),
            5 => Ok(NewArrayType::Char),
            6 => Ok(NewArrayType::Float),
            7 => Ok(NewArrayType::Double),
            8 => Ok(NewArrayType::Byte),
            9 => Ok(NewArrayType::Short),
            10 => Ok(NewArrayType::Int),
            11 => Ok(NewArrayType::Long),
            _ => Err(ClassFileError::BadNewArrayType(code)),
        }
    }

    /// The type code of this element type.
    #[verifier::when_used_as_spec(spec_number)]
    pub fn number(self) -> (r: u8)
        ensures
            r == self.spec_number(),
            spec_new_array_type(r) == Some(self),
    {
        match self {
            NewArrayType::Boolean => 4,
            NewArrayType::Char => 5,
            NewArrayType::Float => 6,
            NewArrayType::Double => 7,
            NewArrayType::Byte => 8,
            NewArrayType::Short => 9,
            NewArrayType::Int => 10,
            NewArrayType::Long => 11,
        }
    }
}

/// A constant that `ldc` loads. `Float` and `Double` hold the bits of the
/// IEEE-754 value.
#[derive(Debug, Clone, PartialEq, Eq, PartialOrd, Ord, Hash)]
pub enum LdcConstant {
    Integer(i32),
    Float(u32),
    Long(i64),
    Double(u64),
    String(JavaText),
    Class(JavaText),
    MethodType(JavaText),
    Handle(Handle),
    ConstantDynamic(ConstantDynamic),
}

pub enum LdcConstantView {
    Integer(i32),
    Float(u32),
    Long(i64),
    Double(u64),
    String(Seq<u8>),
    Class(Seq<u8>),
    MethodType(Seq<u8>),
    Handle(HandleView),
    ConstantDynamic(ConstantDynamicView),
}

impl DeepView for LdcConstant {
    type V = LdcConstantView;

    open spec fn deep_view(&self) -> LdcConstantView {
        match self {
            LdcConstant::Integer(v) => LdcConstantView::Integer(*v),
            LdcConstant::Float(v) => LdcConstantView::Float(*v),
            LdcConstant::Long(v) => LdcConstantView::Long(*v),
            LdcConstant::Double(v) => LdcConstantView::Double(*v),
            LdcConstant::String(v) => LdcConstantView::String(v@),
            LdcConstant::Class(v) => LdcConstantView::Class(v@),
            LdcConstant::MethodType(v) => LdcConstantView::MethodType(v@),
            LdcConstant::Handle(v) => LdcConstantView::Handle(v.deep_view()),
            LdcConstant::ConstantDynamic(v) => LdcConstantView::ConstantDynamic(v.deep_view()),
        }
    }
}

} // verus!
