//! The C library functions that generated code calls, under the names and
//! LLVM signatures they are declared with.

use vstd::prelude::*;
use crate::layout::{LlvmType, LlvmTypeV, llvm_views, FnSignature, ReturnLayout, SignatureV};

verus! {

broadcast use vstd::std_specs::vec::group_vec_axioms;

/// A C library function that generated code calls.
#[derive(Clone, Copy, PartialEq, Eq, Structural)]
pub enum LibcFn {
    Printf,
    Sprintf,
    Malloc,
    Realloc,
    Fopen,
    Fclose,
    Fputs,
    Fseek,
    Ftell,
    Rewind,
    Fread,
    Remove,
    Rand,
    Toupper,
    Tolower,
    Isspace,
    Strstr,
    Strncpy,
    Time,
    Localtime,
    Strftime,
    SleepWin,
    Usleep,
    Getenv,
    System,
    Popen,
    Pclose,
    Getcwd,
    Strlen,
    Strcmp,
    Strncmp,
    Strcpy,
    Strcat,
    Fgets,
    AcrtIobFunc,
    Exit,
}

/// The symbol of a C library function; on Windows the process and
/// directory functions carry a leading underscore.
pub open spec fn spec_libc_name(f: LibcFn, windows: bool) -> Seq<char> {
    match f {
        LibcFn::Printf => "printf"@,
        LibcFn::Sprintf => "sprintf"@,
        LibcFn::Malloc => "malloc"@,
        LibcFn::Realloc => "realloc"@,
        LibcFn::Fopen => "fopen"@,
        LibcFn::Fclose => "fclose"@,
        LibcFn::Fputs => "fputs"@,
        LibcFn::Fseek => "fseek"@,
        LibcFn::Ftell => "ftell"@,
        LibcFn::Rewind => "rewind"@,
        LibcFn::Fread => "fread"@,
        LibcFn::Remove => "remove"@,
        LibcFn::Rand => "rand"@,
        LibcFn::Toupper => "toupper"@,
        LibcFn::Tolower => "tolower"@,
        LibcFn::Isspace => "isspace"@,
        LibcFn::Strstr => "strstr"@,
        LibcFn::Strncpy => "strncpy"@,
        LibcFn::Time => "time"@,
        LibcFn::Localtime => "localtime"@,
        LibcFn::Strftime => "strftime"@,
        LibcFn::SleepWin => "Sleep"@,
        LibcFn::Usleep => "usleep"@,
        LibcFn::Getenv => "getenv"@,
        LibcFn::System => "system"@,
        LibcFn::Popen => if windows { "_popen"@ } else { "popen"@ },
        LibcFn::Pclose => if windows { "_pclose"@ } else { "pclose"@ },
        LibcFn::Getcwd => if windows { "_getcwd"@ } else { "getcwd"@ },
        LibcFn::Strlen => "strlen"@,
        LibcFn::Strcmp => "strcmp"@,
        LibcFn::Strncmp => "strncmp"@,
        LibcFn::Strcpy => "strcpy"@,
        LibcFn::Strcat => "strcat"@,
        LibcFn::Fgets => "fgets"@,
        LibcFn::AcrtIobFunc => "__acrt_iob_func"@,
        LibcFn::Exit => "exit"@,
    }
}

/// The LLVM signature a C library function is declared with.
pub open spec fn spec_libc_signature(f: LibcFn) -> SignatureV {
    match f {
        LibcFn::Printf => SignatureV { params: seq![LlvmTypeV::Ptr], ret: Some(LlvmTypeV::I32), variadic: true },
        LibcFn::Sprintf => SignatureV { params: seq![LlvmTypeV::Ptr, LlvmTypeV::Ptr], ret: Some(LlvmTypeV::I32), variadic: true },
        LibcFn::Malloc => SignatureV { params: seq![LlvmTypeV::I64], ret: Some(LlvmTypeV::Ptr), variadic: false },
        LibcFn::Realloc => SignatureV { params: seq![LlvmTypeV::Ptr, LlvmTypeV::I64], ret: Some(LlvmTypeV::Ptr), variadic: false },
        LibcFn::Fopen => SignatureV { params: seq![LlvmTypeV::Ptr, LlvmTypeV::Ptr], ret: Some(LlvmTypeV::Ptr), variadic: false },
        LibcFn::Fclose => SignatureV { params: seq![LlvmTypeV::Ptr], ret: Some(LlvmTypeV::I32), variadic: false },
        LibcFn::Fputs => SignatureV { params: seq![LlvmTypeV::Ptr, LlvmTypeV::Ptr], ret: Some(LlvmTypeV::I32), variadic: false },
        LibcFn::Fseek => SignatureV { params: seq![LlvmTypeV::Ptr, LlvmTypeV::I64, LlvmTypeV::I32], ret: Some(LlvmTypeV::I32), variadic: false },
        LibcFn::Ftell => SignatureV { params: seq![LlvmTypeV::Ptr], ret: Some(LlvmTypeV::I64), variadic: false },
        LibcFn::Rewind => SignatureV { params: seq![LlvmTypeV::Ptr], ret: None, variadic: false },
        LibcFn::Fread => SignatureV { params: seq![LlvmTypeV::Ptr, LlvmTypeV::I64, LlvmTypeV::I64, LlvmTypeV::Ptr], ret: Some(LlvmTypeV::I64), variadic: false },
        LibcFn::Remove => SignatureV { params: seq![LlvmTypeV::Ptr], ret: Some(LlvmTypeV::I32), variadic: false },
        LibcFn::Rand => SignatureV { params: seq![], ret: Some(LlvmTypeV::I32), variadic: false },
        LibcFn::Toupper => SignatureV { params: seq![LlvmTypeV::I32], ret: Some(LlvmTypeV::I32), variadic: false },
        LibcFn::Tolower => SignatureV { params: seq![LlvmTypeV::I32], ret: Some(LlvmTypeV::I32), variadic: false },
        LibcFn::Isspace => SignatureV { params: seq![LlvmTypeV::I32], ret: Some(LlvmTypeV::I32), variadic: false },
        LibcFn::Strstr => SignatureV { params: seq![LlvmTypeV::Ptr, LlvmTypeV::Ptr], ret: Some(LlvmTypeV::Ptr), variadic: false },
        LibcFn::Strncpy => SignatureV { params: seq![LlvmTypeV::Ptr, LlvmTypeV::Ptr, LlvmTypeV::I64], ret: Some(LlvmTypeV::Ptr), variadic: false },
        LibcFn::Time => SignatureV { params: seq![LlvmTypeV::Ptr], ret: Some(LlvmTypeV::I64), variadic: false },
        LibcFn::Localtime => SignatureV { params: seq![LlvmTypeV::Ptr], ret: Some(LlvmTypeV::Ptr), variadic: false },
        LibcFn::Strftime => SignatureV { params: seq![LlvmTypeV::Ptr, LlvmTypeV::I64, LlvmTypeV::Ptr, LlvmTypeV::Ptr], ret: Some(LlvmTypeV::I64), variadic: false },
        LibcFn::SleepWin => SignatureV { params: seq![LlvmTypeV::I32], ret: None, variadic: false },
        LibcFn::Usleep => SignatureV { params: seq![LlvmTypeV::I32], ret: Some(LlvmTypeV::I32), variadic: false },
        LibcFn::Getenv => SignatureV { params: seq![LlvmTypeV::Ptr], ret: Some(LlvmTypeV::Ptr), variadic: false },
        LibcFn::System => SignatureV { params: seq![LlvmTypeV::Ptr], ret: Some(LlvmTypeV::I32), variadic: false },
        LibcFn::Popen => SignatureV { params: seq![LlvmTypeV::Ptr, LlvmTypeV::Ptr], ret: Some(LlvmTypeV::Ptr), variadic: false },
        LibcFn::Pclose => SignatureV { params: seq![LlvmTypeV::Ptr], ret: Some(LlvmTypeV::I32), variadic: false },
        LibcFn::Getcwd => SignatureV { params: seq![LlvmTypeV::Ptr, LlvmTypeV::I64], ret: Some(LlvmTypeV::Ptr), variadic: false },
        LibcFn::Strlen => SignatureV { params: seq![LlvmTypeV::Ptr], ret: Some(LlvmTypeV::I64), variadic: false },
        LibcFn::Strcmp => SignatureV { params: seq![LlvmTypeV::Ptr, LlvmTypeV::Ptr], ret: Some(LlvmTypeV::I32), variadic: false },
        LibcFn::Strncmp => SignatureV { params: seq![LlvmTypeV::Ptr, LlvmTypeV::Ptr, LlvmTypeV::I64], ret: Some(LlvmTypeV::I32), variadic: false },
        LibcFn::Strcpy => SignatureV { params: seq![LlvmTypeV::Ptr, LlvmTypeV::Ptr], ret: Some(LlvmTypeV::Ptr), variadic: false },
        LibcFn::Strcat => SignatureV { params: seq![LlvmTypeV::Ptr, LlvmTypeV::Ptr], ret: Some(LlvmTypeV::Ptr), variadic: false },
        LibcFn::Fgets => SignatureV { params: seq![LlvmTypeV::Ptr, LlvmTypeV::I32, LlvmTypeV::Ptr], ret: Some(LlvmTypeV::Ptr), variadic: false },
        LibcFn::AcrtIobFunc => SignatureV { params: seq![LlvmTypeV::I32], ret: Some(LlvmTypeV::Ptr), variadic: false },
        LibcFn::Exit => SignatureV { params: seq![LlvmTypeV::I32], ret: None, variadic: false },
    }
}

/// The symbol of a C library function.
pub fn libc_name(f: LibcFn, windows: bool) -> (r: &'static str)
    ensures
        r@ == spec_libc_name(f, windows),
{
    match f {
        LibcFn::Printf => "printf",
        LibcFn::Sprintf => "sprintf",
        LibcFn::Malloc => "malloc",
        LibcFn::Realloc => "realloc",
        LibcFn::Fopen => "fopen",
        LibcFn::Fclose => "fclose",
        LibcFn::Fputs => "fputs",
        LibcFn::Fseek => "fseek",
        LibcFn::Ftell => "ftell",
        LibcFn::Rewind => "rewind",
        LibcFn::Fread => "fread",
        LibcFn::Remove => "remove",
        LibcFn::Rand => "rand",
        LibcFn::Toupper => "toupper",
        LibcFn::Tolower => "tolower",
        LibcFn::Isspace => "isspace",
        LibcFn::Strstr => "strstr",
        LibcFn::Strncpy => "strncpy",
        LibcFn::Time => "time",
        LibcFn::Localtime => "localtime",
        LibcFn::Strftime => "strftime",
        LibcFn::SleepWin => "Sleep",
        LibcFn::Usleep => "usleep",
        LibcFn::Getenv => "getenv",
        LibcFn::System => "system",
        LibcFn::Popen => if windows { "_popen" } else { "popen" },
        LibcFn::Pclose => if windows { "_pclose" } else { "pclose" },
        LibcFn::Getcwd => if windows { "_getcwd" } else { "getcwd" },
        LibcFn::Strlen => "strlen",
        LibcFn::Strcmp => "strcmp",
        LibcFn::Strncmp => "strncmp",
        LibcFn::Strcpy => "strcpy",
        LibcFn::Strcat => "strcat",
        LibcFn::Fgets => "fgets",
        LibcFn::AcrtIobFunc => "__acrt_iob_func",
        LibcFn::Exit => "exit",
    }
}

proof fn lemma_small_views(s: Seq<LlvmType>)
    requires
        s.len() <= 4,
    ensures
        llvm_views(s) == s.map_values(|t: LlvmType| t@),
    decreases s.len(),
{
    if s.len() > 0 {
        lemma_small_views(s.drop_last());
        assert(llvm_views(s) =~= s.map_values(|t: LlvmType| t@));
    } else {
        assert(llvm_views(s) =~= s.map_values(|t: LlvmType| t@));
    }
}

/// The LLVM signature a C library function is declared with.
pub fn libc_signature(f: LibcFn) -> (s: FnSignature)
    ensures
        s@ == spec_libc_signature(f),
{
    let (params, ret, variadic) = match f {
        LibcFn::Printf => (vec![LlvmType::Ptr], ReturnLayout::Value(LlvmType::I32), true),
        LibcFn::Sprintf => (vec![LlvmType::Ptr, LlvmType::Ptr], ReturnLayout::Value(LlvmType::I32), true),
        LibcFn::Malloc => (vec![LlvmType::I64], ReturnLayout::Value(LlvmType::Ptr), false),
        LibcFn::Realloc => (vec![LlvmType::Ptr, LlvmType::I64], ReturnLayout::Value(LlvmType::Ptr), false),
        LibcFn::Fopen => (vec![LlvmType::Ptr, LlvmType::Ptr], ReturnLayout::Value(LlvmType::Ptr), false),
        LibcFn::Fclose => (vec![LlvmType::Ptr], ReturnLayout::Value(LlvmType::I32), false),
        LibcFn::Fputs => (vec![LlvmType::Ptr, LlvmType::Ptr], ReturnLayout::Value(LlvmType::I32), false),
        LibcFn::Fseek => (vec![LlvmType::Ptr, LlvmType::I64, LlvmType::I32], ReturnLayout::Value(LlvmType::I32), false),
        LibcFn::Ftell => (vec![LlvmType::Ptr], ReturnLayout::Value(LlvmType::I64), false),
        LibcFn::Rewind => (vec![LlvmType::Ptr], ReturnLayout::Void, false),
        LibcFn::Fread => (vec![LlvmType::Ptr, LlvmType::I64, LlvmType::I64, LlvmType::Ptr], ReturnLayout::Value(LlvmType::I64), false),
        LibcFn::Remove => (vec![LlvmType::Ptr], ReturnLayout::Value(LlvmType::I32), false),
        LibcFn::Rand => (vec![], ReturnLayout::Value(LlvmType::I32), false),
        LibcFn::Toupper => (vec![LlvmType::I32], ReturnLayout::Value(LlvmType::I32), false),
        LibcFn::Tolower => (vec![LlvmType::I32], ReturnLayout::Value(LlvmType::I32), false),
        LibcFn::Isspace => (vec![LlvmType::I32], ReturnLayout::Value(LlvmType::I32), false),
        LibcFn::Strstr => (vec![LlvmType::Ptr, LlvmType::Ptr], ReturnLayout::Value(LlvmType::Ptr), false),
        LibcFn::Strncpy => (vec![LlvmType::Ptr, LlvmType::Ptr, LlvmType::I64], ReturnLayout::Value(LlvmType::Ptr), false),
        LibcFn::Time => (vec![LlvmType::Ptr], ReturnLayout::Value(LlvmType::I64), false),
        LibcFn::Localtime => (vec![LlvmType::Ptr], ReturnLayout::Value(LlvmType::Ptr), false),
        LibcFn::Strftime => (vec![LlvmType::Ptr, LlvmType::I64, LlvmType::Ptr, LlvmType::Ptr], ReturnLayout::Value(LlvmType::I64), false),
        LibcFn::SleepWin => (vec![LlvmType::I32], ReturnLayout::Void, false),
        LibcFn::Usleep => (vec![LlvmType::I32], ReturnLayout::Value(LlvmType::I32), false),
        LibcFn::Getenv => (vec![LlvmType::Ptr], ReturnLayout::Value(LlvmType::Ptr), false),
        LibcFn::System => (vec![LlvmType::Ptr], ReturnLayout::Value(LlvmType::I32), false),
        LibcFn::Popen => (vec![LlvmType::Ptr, LlvmType::Ptr], ReturnLayout::Value(LlvmType::Ptr), false),
        LibcFn::Pclose => (vec![LlvmType::Ptr], ReturnLayout::Value(LlvmType::I32), false),
        LibcFn::Getcwd => (vec![LlvmType::Ptr, LlvmType::I64], ReturnLayout::Value(LlvmType::Ptr), false),
        LibcFn::Strlen => (vec![LlvmType::Ptr], ReturnLayout::Value(LlvmType::I64), false),
        LibcFn::Strcmp => (vec![LlvmType::Ptr, LlvmType::Ptr], ReturnLayout::Value(LlvmType::I32), false),
        LibcFn::Strncmp => (vec![LlvmType::Ptr, LlvmType::Ptr, LlvmType::I64], ReturnLayout::Value(LlvmType::I32), false),
        LibcFn::Strcpy => (vec![LlvmType::Ptr, LlvmType::Ptr], ReturnLayout::Value(LlvmType::Ptr), false),
        LibcFn::Strcat => (vec![LlvmType::Ptr, LlvmType::Ptr], ReturnLayout::Value(LlvmType::Ptr), false),
        LibcFn::Fgets => (vec![LlvmType::Ptr, LlvmType::I32, LlvmType::Ptr], ReturnLayout::Value(LlvmType::Ptr), false),
        LibcFn::AcrtIobFunc => (vec![LlvmType::I32], ReturnLayout::Value(LlvmType::Ptr), false),
        LibcFn::Exit => (vec![LlvmType::I32], ReturnLayout::Void, false),
    };
    proof {
        lemma_small_views(params@);
        assert(llvm_views(params@) =~= spec_libc_signature(f).params);
    }
    FnSignature { params, ret, variadic }
}

/// The LLVM signature of a C math function of one (`two_args` false) or two
/// `double` arguments returning a `double`.
pub open spec fn spec_math_signature(two_args: bool) -> SignatureV {
    if two_args {
        SignatureV { params: seq![LlvmTypeV::F64, LlvmTypeV::F64], ret: Some(LlvmTypeV::F64), variadic: false }
    } else {
        SignatureV { params: seq![LlvmTypeV::F64], ret: Some(LlvmTypeV::F64), variadic: false }
    }
}

/// The LLVM signature of a C math function such as `sqrt` or `pow`.
pub fn math_signature(two_args: bool) -> (s: FnSignature)
    ensures
        s@ == spec_math_signature(two_args),
{
    let params = if two_args {
        vec![LlvmType::F64, LlvmType::F64]
    } else {
        vec![LlvmType::F64]
    };
    proof {
        lemma_small_views(params@);
        assert(llvm_views(params@) =~= spec_math_signature(two_args).params);
    }
    FnSignature { params, ret: ReturnLayout::Value(LlvmType::F64), variadic: false }
}

} // verus!
