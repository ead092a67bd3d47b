//! The standard-library entry points that calls resolve to, and how many
//! arguments each reads.

use vstd::prelude::*;
use crate::text::str_eq;

verus! {

/// The number of arguments that the standard-library entry `name` reads, or
/// `None` when `name` is not one. Math, strings, conversions, console input,
/// files, time, the process environment, the program arguments, checks
/// (`assert` and its kin, `fail`), `exit` and `range` are covered; an entry in a built-in module `M` is named `M__member`.
pub open spec fn spec_stdlib_arity(name: Seq<char>) -> Option<nat> {
    if name == "Math__abs"@ {
        Some(1nat)
    } else if name == "Math__min"@ {
        Some(2nat)
    } else if name == "Math__max"@ {
        Some(2nat)
    } else if name == "Math__sqrt"@ {
        Some(1nat)
    } else if name == "Math__pow"@ {
        Some(2nat)
    } else if name == "Math__sin"@ {
        Some(1nat)
    } else if name == "Math__cos"@ {
        Some(1nat)
    } else if name == "Math__tan"@ {
        Some(1nat)
    } else if name == "Math__floor"@ {
        Some(1nat)
    } else if name == "Math__ceil"@ {
        Some(1nat)
    } else if name == "Math__round"@ {
        Some(1nat)
    } else if name == "Math__log"@ {
        Some(1nat)
    } else if name == "Math__log10"@ {
        Some(1nat)
    } else if name == "Math__exp"@ {
        Some(1nat)
    } else if name == "Math__random"@ {
        Some(0nat)
    } else if name == "Math__pi"@ {
        Some(0nat)
    } else if name == "Math__e"@ {
        Some(0nat)
    } else if name == "to_float"@ {
        Some(1nat)
    } else if name == "to_int"@ {
        Some(1nat)
    } else if name == "to_string"@ {
        Some(1nat)
    } else if name == "Str__len"@ {
        Some(1nat)
    } else if name == "Str__compare"@ {
        Some(2nat)
    } else if name == "Str__concat"@ {
        Some(2nat)
    } else if name == "Str__upper"@ {
        Some(1nat)
    } else if name == "Str__lower"@ {
        Some(1nat)
    } else if name == "Str__trim"@ {
        Some(1nat)
    } else if name == "Str__contains"@ {
        Some(2nat)
    } else if name == "Str__startsWith"@ {
        Some(2nat)
    } else if name == "Str__endsWith"@ {
        Some(2nat)
    } else if name == "read_line"@ {
        Some(0nat)
    } else if name == "System__exit"@ {
        Some(1nat)
    } else if name == "File__write"@ {
        Some(2nat)
    } else if name == "File__read"@ {
        Some(1nat)
    } else if name == "File__exists"@ {
        Some(1nat)
    } else if name == "File__delete"@ {
        Some(1nat)
    } else if name == "Time__now"@ {
        Some(1nat)
    } else if name == "Time__unix"@ {
        Some(0nat)
    } else if name == "Time__sleep"@ {
        Some(1nat)
    } else if name == "System__getenv"@ {
        Some(1nat)
    } else if name == "System__shell"@ {
        Some(1nat)
    } else if name == "System__exec"@ {
        Some(1nat)
    } else if name == "System__cwd"@ {
        Some(0nat)
    } else if name == "System__os"@ {
        Some(0nat)
    } else if name == "Args__count"@ {
        Some(0nat)
    } else if name == "Args__get"@ {
        Some(1nat)
    } else if name == "exit"@ {
        Some(1nat)
    } else if name == "assert"@ {
        Some(1nat)
    } else if name == "assert_true"@ {
        Some(1nat)
    } else if name == "assert_false"@ {
        Some(1nat)
    } else if name == "assert_eq"@ {
        Some(2nat)
    } else if name == "assert_ne"@ {
        Some(2nat)
    } else if name == "fail"@ {
        Some(0nat)
    } else if name == "range"@ {
        Some(2nat)
    } else {
        None
    }
}

/// The number of arguments that the standard-library entry `name` reads, or
/// `None` when `name` is not one.
pub fn stdlib_arity(name: &str) -> (r: Option<usize>)
    ensures
        r is Some <==> spec_stdlib_arity(name@) is Some,
        r matches Some(a) ==> spec_stdlib_arity(name@) == Some(a as nat),
{
    if str_eq(name, "Math__abs") {
        return Some(1);
    }
    if str_eq(name, "Math__min") {
        return Some(2);
    }
    if str_eq(name, "Math__max") {
        return Some(2);
    }
    if str_eq(name, "Math__sqrt") {
        return Some(1);
    }
    if str_eq(name, "Math__pow") {
        return Some(2);
    }
    if str_eq(name, "Math__sin") {
        return Some(1);
    }
    if str_eq(name, "Math__cos") {
        return Some(1);
    }
    if str_eq(name, "Math__tan") {
        return Some(1);
    }
    if str_eq(name, "Math__floor") {
        return Some(1);
    }
    if str_eq(name, "Math__ceil") {
        return Some(1);
    }
    if str_eq(name, "Math__round") {
        return Some(1);
    }
    if str_eq(name, "Math__log") {
        return Some(1);
    }
    if str_eq(name, "Math__log10") {
        return Some(1);
    }
    if str_eq(name, "Math__exp") {
        return Some(1);
    }
    if str_eq(name, "Math__random") {
        return Some(0);
    }
    if str_eq(name, "Math__pi") {
        return Some(0);
    }
    if str_eq(name, "Math__e") {
        return Some(0);
    }
    if str_eq(name, "to_float") {
        return Some(1);
    }
    if str_eq(name, "to_int") {
        return Some(1);
    }
    if str_eq(name, "to_string") {
        return Some(1);
    }
    if str_eq(name, "Str__len") {
        return Some(1);
    }
    if str_eq(name, "Str__compare") {
        return Some(2);
    }
    if str_eq(name, "Str__concat") {
        return Some(2);
    }
    if str_eq(name, "Str__upper") {
        return Some(1);
    }
    if str_eq(name, "Str__lower") {
        return Some(1);
    }
    if str_eq(name, "Str__trim") {
        return Some(1);
    }
    if str_eq(name, "Str__contains") {
        return Some(2);
    }
    if str_eq(name, "Str__startsWith") {
        return Some(2);
    }
    if str_eq(name, "Str__endsWith") {
        return Some(2);
    }
    if str_eq(name, "read_line") {
        return Some(0);
    }
    if str_eq(name, "System__exit") {
        return Some(1);
    }
    if str_eq(name, "File__write") {
        return Some(2);
    }
    if str_eq(name, "File__read") {
        return Some(1);
    }
    if str_eq(name, "File__exists") {
        return Some(1);
    }
    if str_eq(name, "File__delete") {
        return Some(1);
    }
    if str_eq(name, "Time__now") {
        return Some(1);
    }
    if str_eq(name, "Time__unix") {
        return Some(0);
    }
    if str_eq(name, "Time__sleep") {
        return Some(1);
    }
    if str_eq(name, "System__getenv") {
        return Some(1);
    }
    if str_eq(name, "System__shell") {
        return Some(1);
    }
    if str_eq(name, "System__exec") {
        return Some(1);
    }
    if str_eq(name, "System__cwd") {
        return Some(0);
    }
    if str_eq(name, "System__os") {
        return Some(0);
    }
    if str_eq(name, "Args__count") {
        return Some(0);
    }
    if str_eq(name, "Args__get") {
        return Some(1);
    }
    if str_eq(name, "exit") {
        return Some(1);
    }
    if str_eq(name, "assert") {
        return Some(1);
    }
    if str_eq(name, "assert_true") {
        return Some(1);
    }
    if str_eq(name, "assert_false") {
        return Some(1);
    }
    if str_eq(name, "assert_eq") {
        return Some(2);
    }
    if str_eq(name, "assert_ne") {
        return Some(2);
    }
    if str_eq(name, "fail") {
        return Some(0);
    }
    if str_eq(name, "range") {
        return Some(2);
    }
    None
}

/// The modules whose members calls may reach through `Module.member(..)`.
pub open spec fn spec_is_builtin_module(name: Seq<char>) -> bool {
    name == "File"@ || name == "Time"@ || name == "System"@ || name == "Math"@ || name == "Str"@ || name == "Args"@
}

/// Whether `name` is a built-in module: `File`, `Time`, `System`, `Math`,
/// `Str` or `Args`.
pub fn is_builtin_module(name: &str) -> (r: bool)
    ensures
        r == spec_is_builtin_module(name@),
{
    str_eq(name, "File") || str_eq(name, "Time") || str_eq(name, "System") || str_eq(name, "Math") || str_eq(name, "Str") || str_eq(name, "Args")
}

/// The entries for checks, for leaving the program and for ranges take these numbers of
/// arguments: each is told apart from every entry listed before it.
pub proof fn lemma_check_arities()
    ensures
        spec_stdlib_arity("exit"@) == Some(1nat),
        spec_stdlib_arity("assert"@) == Some(1nat),
        spec_stdlib_arity("assert_true"@) == Some(1nat),
        spec_stdlib_arity("assert_false"@) == Some(1nat),
        spec_stdlib_arity("assert_eq"@) == Some(2nat),
        spec_stdlib_arity("assert_ne"@) == Some(2nat),
        spec_stdlib_arity("fail"@) == Some(0nat),
        spec_stdlib_arity("range"@) == Some(2nat),
{
    reveal_strlit("Math__abs");
    assert("Math__abs"@.len() == 9);
    reveal_strlit("Math__min");
    assert("Math__min"@.len() == 9);
    reveal_strlit("Math__max");
    assert("Math__max"@.len() == 9);
    reveal_strlit("Math__sqrt");
    assert("Math__sqrt"@.len() == 10);
    reveal_strlit("Math__pow");
    assert("Math__pow"@.len() == 9);
    reveal_strlit("Math__sin");
    assert("Math__sin"@.len() == 9);
    reveal_strlit("Math__cos");
    assert("Math__cos"@.len() == 9);
    reveal_strlit("Math__tan");
    assert("Math__tan"@.len() == 9);
    reveal_strlit("Math__floor");
    assert("Math__floor"@.len() == 11);
    reveal_strlit("Math__ceil");
    assert("Math__ceil"@.len() == 10);
    reveal_strlit("Math__round");
    assert("Math__round"@.len() == 11);
    reveal_strlit("Math__log");
    assert("Math__log"@.len() == 9);
    reveal_strlit("Math__log10");
    assert("Math__log10"@.len() == 11);
    reveal_strlit("Math__exp");
    assert("Math__exp"@.len() == 9);
    reveal_strlit("Math__random");
    assert("Math__random"@.len() == 12);
    reveal_strlit("Math__pi");
    assert("Math__pi"@.len() == 8);
    reveal_strlit("Math__e");
    assert("Math__e"@.len() == 7);
    reveal_strlit("to_float");
    assert("to_float"@.len() == 8);
    reveal_strlit("to_int");
    assert("to_int"@.len() == 6);
    reveal_strlit("to_string");
    assert("to_string"@.len() == 9);
    reveal_strlit("Str__len");
    assert("Str__len"@.len() == 8);
    reveal_strlit("Str__compare");
    assert("Str__compare"@.len() == 12);
    reveal_strlit("Str__concat");
    assert("Str__concat"@.len() == 11);
    reveal_strlit("Str__upper");
    assert("Str__upper"@.len() == 10);
    reveal_strlit("Str__lower");
    assert("Str__lower"@.len() == 10);
    reveal_strlit("Str__trim");
    assert("Str__trim"@.len() == 9);
    reveal_strlit("Str__contains");
    assert("Str__contains"@.len() == 13);
    reveal_strlit("Str__startsWith");
    assert("Str__startsWith"@.len() == 15);
    reveal_strlit("Str__endsWith");
    assert("Str__endsWith"@.len() == 13);
    reveal_strlit("read_line");
    assert("read_line"@.len() == 9);
    reveal_strlit("System__exit");
    assert("System__exit"@.len() == 12);
    reveal_strlit("File__write");
    assert("File__write"@.len() == 11);
    reveal_strlit("File__read");
    assert("File__read"@.len() == 10);
    reveal_strlit("File__exists");
    assert("File__exists"@.len() == 12);
    reveal_strlit("File__delete");
    assert("File__delete"@.len() == 12);
    reveal_strlit("Time__now");
    assert("Time__now"@.len() == 9);
    reveal_strlit("Time__unix");
    assert("Time__unix"@.len() == 10);
    reveal_strlit("Time__sleep");
    assert("Time__sleep"@.len() == 11);
    reveal_strlit("System__getenv");
    assert("System__getenv"@.len() == 14);
    reveal_strlit("System__shell");
    assert("System__shell"@.len() == 13);
    reveal_strlit("System__exec");
    assert("System__exec"@.len() == 12);
    reveal_strlit("System__cwd");
    assert("System__cwd"@.len() == 11);
    reveal_strlit("System__os");
    assert("System__os"@.len() == 10);
    reveal_strlit("Args__count");
    assert("Args__count"@.len() == 11);
    reveal_strlit("Args__get");
    assert("Args__get"@.len() == 9);
    reveal_strlit("exit");
    assert("exit"@.len() == 4);
    reveal_strlit("assert");
    assert("assert"@.len() == 6);
    reveal_strlit("assert_true");
    assert("assert_true"@.len() == 11);
    reveal_strlit("assert_false");
    assert("assert_false"@.len() == 12);
    reveal_strlit("assert_eq");
    assert("assert_eq"@.len() == 9);
    reveal_strlit("assert_ne");
    assert("assert_ne"@.len() == 9);
    reveal_strlit("fail");
    assert("fail"@.len() == 4);
    reveal_strlit("range");
    assert("range"@.len() == 5);
    assert("assert"@[0] != "to_int"@[0]);
    assert("assert_true"@[0] != "Math__floor"@[0]);
    assert("assert_true"@[0] != "Math__round"@[0]);
    assert("assert_true"@[0] != "Math__log10"@[0]);
    assert("assert_true"@[0] != "Str__concat"@[0]);
    assert("assert_true"@[0] != "File__write"@[0]);
    assert("assert_true"@[0] != "Time__sleep"@[0]);
    assert("assert_true"@[0] != "System__cwd"@[0]);
    assert("assert_true"@[0] != "Args__count"@[0]);
    assert("assert_false"@[0] != "Math__random"@[0]);
    assert("assert_false"@[0] != "Str__compare"@[0]);
    assert("assert_false"@[0] != "System__exit"@[0]);
    assert("assert_false"@[0] != "File__exists"@[0]);
    assert("assert_false"@[0] != "File__delete"@[0]);
    assert("assert_false"@[0] != "System__exec"@[0]);
    assert("assert_eq"@[0] != "Math__abs"@[0]);
    assert("assert_eq"@[0] != "Math__min"@[0]);
    assert("assert_eq"@[0] != "Math__max"@[0]);
    assert("assert_eq"@[0] != "Math__pow"@[0]);
    assert("assert_eq"@[0] != "Math__sin"@[0]);
    assert("assert_eq"@[0] != "Math__cos"@[0]);
    assert("assert_eq"@[0] != "Math__tan"@[0]);
    assert("assert_eq"@[0] != "Math__log"@[0]);
    assert("assert_eq"@[0] != "Math__exp"@[0]);
    assert("assert_eq"@[0] != "to_string"@[0]);
    assert("assert_eq"@[0] != "Str__trim"@[0]);
    assert("assert_eq"@[0] != "read_line"@[0]);
    assert("assert_eq"@[0] != "Time__now"@[0]);
    assert("assert_eq"@[0] != "Args__get"@[0]);
    assert("assert_ne"@[0] != "Math__abs"@[0]);
    assert("assert_ne"@[0] != "Math__min"@[0]);
    assert("assert_ne"@[0] != "Math__max"@[0]);
    assert("assert_ne"@[0] != "Math__pow"@[0]);
    assert("assert_ne"@[0] != "Math__sin"@[0]);
    assert("assert_ne"@[0] != "Math__cos"@[0]);
    assert("assert_ne"@[0] != "Math__tan"@[0]);
    assert("assert_ne"@[0] != "Math__log"@[0]);
    assert("assert_ne"@[0] != "Math__exp"@[0]);
    assert("assert_ne"@[0] != "to_string"@[0]);
    assert("assert_ne"@[0] != "Str__trim"@[0]);
    assert("assert_ne"@[0] != "read_line"@[0]);
    assert("assert_ne"@[0] != "Time__now"@[0]);
    assert("assert_ne"@[0] != "Args__get"@[0]);
    assert("assert_ne"@[7] != "assert_eq"@[7]);
    assert("fail"@[0] != "exit"@[0]);
}

} // verus!
