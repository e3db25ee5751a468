//! What the templates give: that what is filled in stands in its places.

use crate::cpp_templates::{
    BOX_FROM_CLOSURE, BOX_FROM_IMPL, FIELD_METHOD, IMPL_METHOD, IMPL_OPEN, OWNED_METHOD,
    REF_FROM_IMPL, REF_METHOD,
};
use crate::holding::{
    holds, lemma_filled_literal, lemma_filled_reaches, lemma_holds_nothing, lemma_holds_step,
    lemma_regroup,
};
use crate::rust_templates::{
    CLOSURE_OPEN, CPP_ALIAS, CPP_MODULE, CPP_REF_STRUCT, CPP_VALUE_BRIDGE, CPP_VALUE_STRUCT,
    DEBUG_PRINT_SHIM, DISCRIMINANT_ARM, DISCRIMINANT_OPEN, DROP_SHIM, EXTERN_CPP_FN_OPEN,
    EXTERN_FN_OPEN, FIELD_OFFSET, FUTURE_SHIM_CLOSE, FUTURE_SHIM_OPEN, HEAP_SHIMS, MATCH_CHECK,
    PRETTY_PRINT_SHIM, STACK_OWNED_STRUCT, STRUCT_WRITE, TRAIT_BOX_CLOSE, TRAIT_BOX_OPEN,
    TRAIT_REF_CLOSE, TRAIT_REF_OPEN, VARIANT_FIELD_OFFSET, WAKER_SHIMS,
};
use crate::text::{filled, filled_from, is_digit, occurs_at};
use vstd::prelude::*;

verus! {

proof fn lemma_trait_box_open_template()
    ensures
        occurs_at(TRAIT_BOX_OPEN@, "pub extern \"C\" fn "@, 47),
        TRAIT_BOX_OPEN@[65] == '$',
        TRAIT_BOX_OPEN@[66] == '0',
        occurs_at(TRAIT_BOX_OPEN@, "(\n    data: *mut u8,\n    destructor: extern \"C\" fn(*mut u8),\n    o: *mut u8,\n)"@, 67),
        !is_digit(TRAIT_BOX_OPEN@[47]),
        occurs_at(TRAIT_BOX_OPEN@, "(self.destructor)(self.data)"@, 312),
        !is_digit(TRAIT_BOX_OPEN@[312]),
        occurs_at(TRAIT_BOX_OPEN@, "impl "@, 361),
        TRAIT_BOX_OPEN@[366] == '$',
        TRAIT_BOX_OPEN@[367] == '1',
        occurs_at(TRAIT_BOX_OPEN@, " for Wrapper {"@, 368),
        !is_digit(TRAIT_BOX_OPEN@[361]),
        "pub extern \"C\" fn "@.len() == 18,
        !"pub extern \"C\" fn "@.contains('$'),
        "(\n    data: *mut u8,\n    destructor: extern \"C\" fn(*mut u8),\n    o: *mut u8,\n)"@.len() == 78,
        !"(\n    data: *mut u8,\n    destructor: extern \"C\" fn(*mut u8),\n    o: *mut u8,\n)"@.contains('$'),
        "(self.destructor)(self.data)"@.len() == 28,
        !"(self.destructor)(self.data)"@.contains('$'),
        "impl "@.len() == 5,
        !"impl "@.contains('$'),
        " for Wrapper {"@.len() == 14,
        !" for Wrapper {"@.contains('$'),
        TRAIT_BOX_OPEN@.len() == 384,
{
    reveal_strlit(r#"
#[allow(non_snake_case)]
#[unsafe(no_mangle)]
pub extern "C" fn $0(
    data: *mut u8,
    destructor: extern "C" fn(*mut u8),
    o: *mut u8,
) {
    struct Wrapper { 
        data: *mut u8,
        destructor: extern "C" fn(*mut u8),
    }
    impl Drop for Wrapper {
        fn drop(&mut self) {
            (self.destructor)(self.data)
        }
    }
    impl $1 for Wrapper {

"#);
    reveal_strlit("pub extern \"C\" fn ");
    reveal_strlit("(\n    data: *mut u8,\n    destructor: extern \"C\" fn(*mut u8),\n    o: *mut u8,\n)");
    reveal_strlit("(self.destructor)(self.data)");
    reveal_strlit("impl ");
    reveal_strlit(" for Wrapper {");
    assert(TRAIT_BOX_OPEN@.subrange(47, 65) =~= "pub extern \"C\" fn "@);
    assert(TRAIT_BOX_OPEN@.subrange(67, 145) =~= "(\n    data: *mut u8,\n    destructor: extern \"C\" fn(*mut u8),\n    o: *mut u8,\n)"@);
    assert(TRAIT_BOX_OPEN@.subrange(312, 340) =~= "(self.destructor)(self.data)"@);
    assert(TRAIT_BOX_OPEN@.subrange(361, 366) =~= "impl "@);
    assert(TRAIT_BOX_OPEN@.subrange(368, 382) =~= " for Wrapper {"@);
}

proof fn lemma_trait_box_open_0(args: Seq<Seq<char>>)
    requires
        args.len() == 2,
    ensures
        filled_from(TRAIT_BOX_OPEN@, args, 47) == ("pub extern \"C\" fn "@ + args[0] + "(\n    data: *mut u8,\n    destructor: extern \"C\" fn(*mut u8),\n    o: *mut u8,\n)"@) + filled_from(TRAIT_BOX_OPEN@, args, 145),
{
    lemma_trait_box_open_template();
    let t = TRAIT_BOX_OPEN@;
    lemma_filled_literal(t, args, 47, "pub extern \"C\" fn "@);
    assert(filled_from(t, args, 65) == args[0] + filled_from(t, args, 67));
    lemma_filled_literal(t, args, 67, "(\n    data: *mut u8,\n    destructor: extern \"C\" fn(*mut u8),\n    o: *mut u8,\n)"@);
    lemma_regroup("pub extern \"C\" fn "@, args[0], filled_from(t, args, 67));
    lemma_regroup("pub extern \"C\" fn "@ + args[0], "(\n    data: *mut u8,\n    destructor: extern \"C\" fn(*mut u8),\n    o: *mut u8,\n)"@, filled_from(t, args, 145));
}

proof fn lemma_trait_box_open_1(args: Seq<Seq<char>>)
    requires
        args.len() == 2,
    ensures
        filled_from(TRAIT_BOX_OPEN@, args, 312) == ("(self.destructor)(self.data)"@) + filled_from(TRAIT_BOX_OPEN@, args, 340),
{
    lemma_trait_box_open_template();
    let t = TRAIT_BOX_OPEN@;
    lemma_filled_literal(t, args, 312, "(self.destructor)(self.data)"@);
}

proof fn lemma_trait_box_open_2(args: Seq<Seq<char>>)
    requires
        args.len() == 2,
    ensures
        filled_from(TRAIT_BOX_OPEN@, args, 361) == ("impl "@ + args[1] + " for Wrapper {"@) + filled_from(TRAIT_BOX_OPEN@, args, 382),
{
    lemma_trait_box_open_template();
    let t = TRAIT_BOX_OPEN@;
    lemma_filled_literal(t, args, 361, "impl "@);
    assert(filled_from(t, args, 366) == args[1] + filled_from(t, args, 368));
    lemma_filled_literal(t, args, 368, " for Wrapper {"@);
    lemma_regroup("impl "@, args[1], filled_from(t, args, 368));
    lemma_regroup("impl "@ + args[1], " for Wrapper {"@, filled_from(t, args, 382));
}

/// What `TRAIT_BOX_OPEN` gives holds what is filled in, in its places.
pub proof fn lemma_trait_box_open(args: Seq<Seq<char>>)
    requires
        args.len() == 2,
    ensures
        holds(filled(TRAIT_BOX_OPEN@, args), seq!["pub extern \"C\" fn "@ + args[0] + "(\n    data: *mut u8,\n    destructor: extern \"C\" fn(*mut u8),\n    o: *mut u8,\n)"@, "(self.destructor)(self.data)"@, "impl "@ + args[1] + " for Wrapper {"@]),
{
    lemma_trait_box_open_template();
    let t = TRAIT_BOX_OPEN@;
    let parts = seq!["pub extern \"C\" fn "@ + args[0] + "(\n    data: *mut u8,\n    destructor: extern \"C\" fn(*mut u8),\n    o: *mut u8,\n)"@, "(self.destructor)(self.data)"@, "impl "@ + args[1] + " for Wrapper {"@];
    lemma_holds_nothing(filled_from(t, args, 382), parts);
    lemma_trait_box_open_2(args);
    let before = lemma_filled_reaches(t, args, 340, 361);
    lemma_holds_step(filled_from(t, args, 340), before, filled_from(t, args, 382), parts, 2);
    lemma_trait_box_open_1(args);
    let before = lemma_filled_reaches(t, args, 145, 312);
    lemma_holds_step(filled_from(t, args, 145), before, filled_from(t, args, 340), parts, 1);
    lemma_trait_box_open_0(args);
    let before = lemma_filled_reaches(t, args, 0, 47);
    lemma_holds_step(filled_from(t, args, 0), before, filled_from(t, args, 145), parts, 0);
    assert(parts.skip(0) =~= parts);
}

proof fn lemma_trait_box_close_template()
    ensures
        occurs_at(TRAIT_BOX_CLOSE@, "let this = Wrapper {\n            data,\n            destructor,\n        };"@, 29),
        !is_digit(TRAIT_BOX_CLOSE@[29]),
        occurs_at(TRAIT_BOX_CLOSE@, "let r: Box<dyn "@, 111),
        TRAIT_BOX_CLOSE@[126] == '$',
        TRAIT_BOX_CLOSE@[127] == '0',
        occurs_at(TRAIT_BOX_CLOSE@, "> = Box::new(this);\n        std::ptr::write(o as *mut _, r)"@, 128),
        !is_digit(TRAIT_BOX_CLOSE@[111]),
        "let this = Wrapper {\n            data,\n            destructor,\n        };"@.len() == 73,
        !"let this = Wrapper {\n            data,\n            destructor,\n        };"@.contains('$'),
        "let r: Box<dyn "@.len() == 15,
        !"let r: Box<dyn "@.contains('$'),
        "> = Box::new(this);\n        std::ptr::write(o as *mut _, r)"@.len() == 59,
        !"> = Box::new(this);\n        std::ptr::write(o as *mut _, r)"@.contains('$'),
        TRAIT_BOX_CLOSE@.len() == 196,
{
    reveal_strlit(r#"
    }
    unsafe { 
        let this = Wrapper {
            data,
            destructor,
        };
        let r: Box<dyn $0> = Box::new(this);
        std::ptr::write(o as *mut _, r)
    }
}
"#);
    reveal_strlit("let this = Wrapper {\n            data,\n            destructor,\n        };");
    reveal_strlit("let r: Box<dyn ");
    reveal_strlit("> = Box::new(this);\n        std::ptr::write(o as *mut _, r)");
    assert(TRAIT_BOX_CLOSE@.subrange(29, 102) =~= "let this = Wrapper {\n            data,\n            destructor,\n        };"@);
    assert(TRAIT_BOX_CLOSE@.subrange(111, 126) =~= "let r: Box<dyn "@);
    assert(TRAIT_BOX_CLOSE@.subrange(128, 187) =~= "> = Box::new(this);\n        std::ptr::write(o as *mut _, r)"@);
}

proof fn lemma_trait_box_close_0(args: Seq<Seq<char>>)
    requires
        args.len() == 1,
    ensures
        filled_from(TRAIT_BOX_CLOSE@, args, 29) == ("let this = Wrapper {\n            data,\n            destructor,\n        };"@) + filled_from(TRAIT_BOX_CLOSE@, args, 102),
{
    lemma_trait_box_close_template();
    let t = TRAIT_BOX_CLOSE@;
    lemma_filled_literal(t, args, 29, "let this = Wrapper {\n            data,\n            destructor,\n        };"@);
}

proof fn lemma_trait_box_close_1(args: Seq<Seq<char>>)
    requires
        args.len() == 1,
    ensures
        filled_from(TRAIT_BOX_CLOSE@, args, 111) == ("let r: Box<dyn "@ + args[0] + "> = Box::new(this);\n        std::ptr::write(o as *mut _, r)"@) + filled_from(TRAIT_BOX_CLOSE@, args, 187),
{
    lemma_trait_box_close_template();
    let t = TRAIT_BOX_CLOSE@;
    lemma_filled_literal(t, args, 111, "let r: Box<dyn "@);
    assert(filled_from(t, args, 126) == args[0] + filled_from(t, args, 128));
    lemma_filled_literal(t, args, 128, "> = Box::new(this);\n        std::ptr::write(o as *mut _, r)"@);
    lemma_regroup("let r: Box<dyn "@, args[0], filled_from(t, args, 128));
    lemma_regroup("let r: Box<dyn "@ + args[0], "> = Box::new(this);\n        std::ptr::write(o as *mut _, r)"@, filled_from(t, args, 187));
}

/// What `TRAIT_BOX_CLOSE` gives holds what is filled in, in its places.
pub proof fn lemma_trait_box_close(args: Seq<Seq<char>>)
    requires
        args.len() == 1,
    ensures
        holds(filled(TRAIT_BOX_CLOSE@, args), seq!["let this = Wrapper {\n            data,\n            destructor,\n        };"@, "let r: Box<dyn "@ + args[0] + "> = Box::new(this);\n        std::ptr::write(o as *mut _, r)"@]),
{
    lemma_trait_box_close_template();
    let t = TRAIT_BOX_CLOSE@;
    let parts = seq!["let this = Wrapper {\n            data,\n            destructor,\n        };"@, "let r: Box<dyn "@ + args[0] + "> = Box::new(this);\n        std::ptr::write(o as *mut _, r)"@];
    lemma_holds_nothing(filled_from(t, args, 187), parts);
    lemma_trait_box_close_1(args);
    let before = lemma_filled_reaches(t, args, 102, 111);
    lemma_holds_step(filled_from(t, args, 102), before, filled_from(t, args, 187), parts, 1);
    lemma_trait_box_close_0(args);
    let before = lemma_filled_reaches(t, args, 0, 29);
    lemma_holds_step(filled_from(t, args, 0), before, filled_from(t, args, 102), parts, 0);
    assert(parts.skip(0) =~= parts);
}

proof fn lemma_trait_ref_open_template()
    ensures
        occurs_at(TRAIT_REF_OPEN@, "pub extern \"C\" fn "@, 47),
        TRAIT_REF_OPEN@[65] == '$',
        TRAIT_REF_OPEN@[66] == '0',
        occurs_at(TRAIT_REF_OPEN@, "(\n    data: *mut u8,\n    o: *mut u8,\n)"@, 67),
        !is_digit(TRAIT_REF_OPEN@[47]),
        occurs_at(TRAIT_REF_OPEN@, "impl "@, 136),
        TRAIT_REF_OPEN@[141] == '$',
        TRAIT_REF_OPEN@[142] == '1',
        occurs_at(TRAIT_REF_OPEN@, " for Wrapper {"@, 143),
        !is_digit(TRAIT_REF_OPEN@[136]),
        "pub extern \"C\" fn "@.len() == 18,
        !"pub extern \"C\" fn "@.contains('$'),
        "(\n    data: *mut u8,\n    o: *mut u8,\n)"@.len() == 38,
        !"(\n    data: *mut u8,\n    o: *mut u8,\n)"@.contains('$'),
        "impl "@.len() == 5,
        !"impl "@.contains('$'),
        " for Wrapper {"@.len() == 14,
        !" for Wrapper {"@.contains('$'),
        TRAIT_REF_OPEN@.len() == 159,
{
    reveal_strlit(r#"
#[allow(non_snake_case)]
#[unsafe(no_mangle)]
pub extern "C" fn $0(
    data: *mut u8,
    o: *mut u8,
) {
    struct Wrapper(());
    impl $1 for Wrapper {

"#);
    reveal_strlit("pub extern \"C\" fn ");
    reveal_strlit("(\n    data: *mut u8,\n    o: *mut u8,\n)");
    reveal_strlit("impl ");
    reveal_strlit(" for Wrapper {");
    assert(TRAIT_REF_OPEN@.subrange(47, 65) =~= "pub extern \"C\" fn "@);
    assert(TRAIT_REF_OPEN@.subrange(67, 105) =~= "(\n    data: *mut u8,\n    o: *mut u8,\n)"@);
    assert(TRAIT_REF_OPEN@.subrange(136, 141) =~= "impl "@);
    assert(TRAIT_REF_OPEN@.subrange(143, 157) =~= " for Wrapper {"@);
}

proof fn lemma_trait_ref_open_0(args: Seq<Seq<char>>)
    requires
        args.len() == 2,
    ensures
        filled_from(TRAIT_REF_OPEN@, args, 47) == ("pub extern \"C\" fn "@ + args[0] + "(\n    data: *mut u8,\n    o: *mut u8,\n)"@) + filled_from(TRAIT_REF_OPEN@, args, 105),
{
    lemma_trait_ref_open_template();
    let t = TRAIT_REF_OPEN@;
    lemma_filled_literal(t, args, 47, "pub extern \"C\" fn "@);
    assert(filled_from(t, args, 65) == args[0] + filled_from(t, args, 67));
    lemma_filled_literal(t, args, 67, "(\n    data: *mut u8,\n    o: *mut u8,\n)"@);
    lemma_regroup("pub extern \"C\" fn "@, args[0], filled_from(t, args, 67));
    lemma_regroup("pub extern \"C\" fn "@ + args[0], "(\n    data: *mut u8,\n    o: *mut u8,\n)"@, filled_from(t, args, 105));
}

proof fn lemma_trait_ref_open_1(args: Seq<Seq<char>>)
    requires
        args.len() == 2,
    ensures
        filled_from(TRAIT_REF_OPEN@, args, 136) == ("impl "@ + args[1] + " for Wrapper {"@) + filled_from(TRAIT_REF_OPEN@, args, 157),
{
    lemma_trait_ref_open_template();
    let t = TRAIT_REF_OPEN@;
    lemma_filled_literal(t, args, 136, "impl "@);
    assert(filled_from(t, args, 141) == args[1] + filled_from(t, args, 143));
    lemma_filled_literal(t, args, 143, " for Wrapper {"@);
    lemma_regroup("impl "@, args[1], filled_from(t, args, 143));
    lemma_regroup("impl "@ + args[1], " for Wrapper {"@, filled_from(t, args, 157));
}

/// What `TRAIT_REF_OPEN` gives holds what is filled in, in its places.
pub proof fn lemma_trait_ref_open(args: Seq<Seq<char>>)
    requires
        args.len() == 2,
    ensures
        holds(filled(TRAIT_REF_OPEN@, args), seq!["pub extern \"C\" fn "@ + args[0] + "(\n    data: *mut u8,\n    o: *mut u8,\n)"@, "impl "@ + args[1] + " for Wrapper {"@]),
{
    lemma_trait_ref_open_template();
    let t = TRAIT_REF_OPEN@;
    let parts = seq!["pub extern \"C\" fn "@ + args[0] + "(\n    data: *mut u8,\n    o: *mut u8,\n)"@, "impl "@ + args[1] + " for Wrapper {"@];
    lemma_holds_nothing(filled_from(t, args, 157), parts);
    lemma_trait_ref_open_1(args);
    let before = lemma_filled_reaches(t, args, 105, 136);
    lemma_holds_step(filled_from(t, args, 105), before, filled_from(t, args, 157), parts, 1);
    lemma_trait_ref_open_0(args);
    let before = lemma_filled_reaches(t, args, 0, 47);
    lemma_holds_step(filled_from(t, args, 0), before, filled_from(t, args, 105), parts, 0);
    assert(parts.skip(0) =~= parts);
}

proof fn lemma_trait_ref_close_template()
    ensures
        occurs_at(TRAIT_REF_CLOSE@, "let this = data as *mut Wrapper;"@, 29),
        !is_digit(TRAIT_REF_CLOSE@[29]),
        occurs_at(TRAIT_REF_CLOSE@, "let r: &dyn "@, 70),
        TRAIT_REF_CLOSE@[82] == '$',
        TRAIT_REF_CLOSE@[83] == '0',
        occurs_at(TRAIT_REF_CLOSE@, " = &*this;\n        std::ptr::write(o as *mut _, r)"@, 84),
        !is_digit(TRAIT_REF_CLOSE@[70]),
        "let this = data as *mut Wrapper;"@.len() == 32,
        !"let this = data as *mut Wrapper;"@.contains('$'),
        "let r: &dyn "@.len() == 12,
        !"let r: &dyn "@.contains('$'),
        " = &*this;\n        std::ptr::write(o as *mut _, r)"@.len() == 50,
        !" = &*this;\n        std::ptr::write(o as *mut _, r)"@.contains('$'),
        TRAIT_REF_CLOSE@.len() == 143,
{
    reveal_strlit(r#"
    }
    unsafe { 
        let this = data as *mut Wrapper;
        let r: &dyn $0 = &*this;
        std::ptr::write(o as *mut _, r)
    }
}
"#);
    reveal_strlit("let this = data as *mut Wrapper;");
    reveal_strlit("let r: &dyn ");
    reveal_strlit(" = &*this;\n        std::ptr::write(o as *mut _, r)");
    assert(TRAIT_REF_CLOSE@.subrange(29, 61) =~= "let this = data as *mut Wrapper;"@);
    assert(TRAIT_REF_CLOSE@.subrange(70, 82) =~= "let r: &dyn "@);
    assert(TRAIT_REF_CLOSE@.subrange(84, 134) =~= " = &*this;\n        std::ptr::write(o as *mut _, r)"@);
}

proof fn lemma_trait_ref_close_0(args: Seq<Seq<char>>)
    requires
        args.len() == 1,
    ensures
        filled_from(TRAIT_REF_CLOSE@, args, 29) == ("let this = data as *mut Wrapper;"@) + filled_from(TRAIT_REF_CLOSE@, args, 61),
{
    lemma_trait_ref_close_template();
    let t = TRAIT_REF_CLOSE@;
    lemma_filled_literal(t, args, 29, "let this = data as *mut Wrapper;"@);
}

proof fn lemma_trait_ref_close_1(args: Seq<Seq<char>>)
    requires
        args.len() == 1,
    ensures
        filled_from(TRAIT_REF_CLOSE@, args, 70) == ("let r: &dyn "@ + args[0] + " = &*this;\n        std::ptr::write(o as *mut _, r)"@) + filled_from(TRAIT_REF_CLOSE@, args, 134),
{
    lemma_trait_ref_close_template();
    let t = TRAIT_REF_CLOSE@;
    lemma_filled_literal(t, args, 70, "let r: &dyn "@);
    assert(filled_from(t, args, 82) == args[0] + filled_from(t, args, 84));
    lemma_filled_literal(t, args, 84, " = &*this;\n        std::ptr::write(o as *mut _, r)"@);
    lemma_regroup("let r: &dyn "@, args[0], filled_from(t, args, 84));
    lemma_regroup("let r: &dyn "@ + args[0], " = &*this;\n        std::ptr::write(o as *mut _, r)"@, filled_from(t, args, 134));
}

/// What `TRAIT_REF_CLOSE` gives holds what is filled in, in its places.
pub proof fn lemma_trait_ref_close(args: Seq<Seq<char>>)
    requires
        args.len() == 1,
    ensures
        holds(filled(TRAIT_REF_CLOSE@, args), seq!["let this = data as *mut Wrapper;"@, "let r: &dyn "@ + args[0] + " = &*this;\n        std::ptr::write(o as *mut _, r)"@]),
{
    lemma_trait_ref_close_template();
    let t = TRAIT_REF_CLOSE@;
    let parts = seq!["let this = data as *mut Wrapper;"@, "let r: &dyn "@ + args[0] + " = &*this;\n        std::ptr::write(o as *mut _, r)"@];
    lemma_holds_nothing(filled_from(t, args, 134), parts);
    lemma_trait_ref_close_1(args);
    let before = lemma_filled_reaches(t, args, 61, 70);
    lemma_holds_step(filled_from(t, args, 61), before, filled_from(t, args, 134), parts, 1);
    lemma_trait_ref_close_0(args);
    let before = lemma_filled_reaches(t, args, 0, 29);
    lemma_holds_step(filled_from(t, args, 0), before, filled_from(t, args, 61), parts, 0);
    assert(parts.skip(0) =~= parts);
}

proof fn lemma_closure_open_template()
    ensures
        occurs_at(CLOSURE_OPEN@, "pub extern \"C\" fn "@, 47),
        CLOSURE_OPEN@[65] == '$',
        CLOSURE_OPEN@[66] == '0',
        occurs_at(CLOSURE_OPEN@, "(\n    data: *mut u8,\n    destructor: extern \"C\" fn(*mut u8),\n    call: extern \"C\" fn(data: *mut u8, "@, 67),
        CLOSURE_OPEN@[167] == '$',
        CLOSURE_OPEN@[168] == '1',
        occurs_at(CLOSURE_OPEN@, " o: *mut u8),\n    o: *mut u8,\n)"@, 169),
        !is_digit(CLOSURE_OPEN@[47]),
        occurs_at(CLOSURE_OPEN@, "(self.destructor)(self.data)"@, 374),
        !is_digit(CLOSURE_OPEN@[374]),
        occurs_at(CLOSURE_OPEN@, "let r: Box<dyn "@, 472),
        CLOSURE_OPEN@[487] == '$',
        CLOSURE_OPEN@[488] == '2',
        occurs_at(CLOSURE_OPEN@, "> = Box::new(move |"@, 489),
        CLOSURE_OPEN@[508] == '$',
        CLOSURE_OPEN@[509] == '3',
        occurs_at(CLOSURE_OPEN@, "| unsafe {"@, 510),
        !is_digit(CLOSURE_OPEN@[472]),
        "pub extern \"C\" fn "@.len() == 18,
        !"pub extern \"C\" fn "@.contains('$'),
        "(\n    data: *mut u8,\n    destructor: extern \"C\" fn(*mut u8),\n    call: extern \"C\" fn(data: *mut u8, "@.len() == 100,
        !"(\n    data: *mut u8,\n    destructor: extern \"C\" fn(*mut u8),\n    call: extern \"C\" fn(data: *mut u8, "@.contains('$'),
        " o: *mut u8),\n    o: *mut u8,\n)"@.len() == 31,
        !" o: *mut u8),\n    o: *mut u8,\n)"@.contains('$'),
        "(self.destructor)(self.data)"@.len() == 28,
        !"(self.destructor)(self.data)"@.contains('$'),
        "let r: Box<dyn "@.len() == 15,
        !"let r: Box<dyn "@.contains('$'),
        "> = Box::new(move |"@.len() == 19,
        !"> = Box::new(move |"@.contains('$'),
        "| unsafe {"@.len() == 10,
        !"| unsafe {"@.contains('$'),
        CLOSURE_OPEN@.len() == 571,
{
    reveal_strlit(r#"
#[allow(non_snake_case)]
#[unsafe(no_mangle)]
pub extern "C" fn $0(
    data: *mut u8,
    destructor: extern "C" fn(*mut u8),
    call: extern "C" fn(data: *mut u8, $1 o: *mut u8),
    o: *mut u8,
) {
    struct ClosureData {
        data: *mut u8,
        destructor: extern "C" fn(*mut u8),
    }
    impl Drop for ClosureData {
        fn drop(&mut self) {
            (self.destructor)(self.data)
        }
    }
    let this = ClosureData { data, destructor };
    let r: Box<dyn $2> = Box::new(move |$3| unsafe {
        _ = &this;
        let data = this.data;

"#);
    reveal_strlit("pub extern \"C\" fn ");
    reveal_strlit("(\n    data: *mut u8,\n    destructor: extern \"C\" fn(*mut u8),\n    call: extern \"C\" fn(data: *mut u8, ");
    reveal_strlit(" o: *mut u8),\n    o: *mut u8,\n)");
    reveal_strlit("(self.destructor)(self.data)");
    reveal_strlit("let r: Box<dyn ");
    reveal_strlit("> = Box::new(move |");
    reveal_strlit("| unsafe {");
    assert(CLOSURE_OPEN@.subrange(47, 65) =~= "pub extern \"C\" fn "@);
    assert(CLOSURE_OPEN@.subrange(67, 167) =~= "(\n    data: *mut u8,\n    destructor: extern \"C\" fn(*mut u8),\n    call: extern \"C\" fn(data: *mut u8, "@);
    assert(CLOSURE_OPEN@.subrange(169, 200) =~= " o: *mut u8),\n    o: *mut u8,\n)"@);
    assert(CLOSURE_OPEN@.subrange(374, 402) =~= "(self.destructor)(self.data)"@);
    assert(CLOSURE_OPEN@.subrange(472, 487) =~= "let r: Box<dyn "@);
    assert(CLOSURE_OPEN@.subrange(489, 508) =~= "> = Box::new(move |"@);
    assert(CLOSURE_OPEN@.subrange(510, 520) =~= "| unsafe {"@);
}

proof fn lemma_closure_open_0(args: Seq<Seq<char>>)
    requires
        args.len() == 4,
    ensures
        filled_from(CLOSURE_OPEN@, args, 47) == ("pub extern \"C\" fn "@ + args[0] + "(\n    data: *mut u8,\n    destructor: extern \"C\" fn(*mut u8),\n    call: extern \"C\" fn(data: *mut u8, "@ + args[1] + " o: *mut u8),\n    o: *mut u8,\n)"@) + filled_from(CLOSURE_OPEN@, args, 200),
{
    lemma_closure_open_template();
    let t = CLOSURE_OPEN@;
    lemma_filled_literal(t, args, 47, "pub extern \"C\" fn "@);
    assert(filled_from(t, args, 65) == args[0] + filled_from(t, args, 67));
    lemma_filled_literal(t, args, 67, "(\n    data: *mut u8,\n    destructor: extern \"C\" fn(*mut u8),\n    call: extern \"C\" fn(data: *mut u8, "@);
    assert(filled_from(t, args, 167) == args[1] + filled_from(t, args, 169));
    lemma_filled_literal(t, args, 169, " o: *mut u8),\n    o: *mut u8,\n)"@);
    lemma_regroup("pub extern \"C\" fn "@, args[0], filled_from(t, args, 67));
    lemma_regroup("pub extern \"C\" fn "@ + args[0], "(\n    data: *mut u8,\n    destructor: extern \"C\" fn(*mut u8),\n    call: extern \"C\" fn(data: *mut u8, "@, filled_from(t, args, 167));
    lemma_regroup("pub extern \"C\" fn "@ + args[0] + "(\n    data: *mut u8,\n    destructor: extern \"C\" fn(*mut u8),\n    call: extern \"C\" fn(data: *mut u8, "@, args[1], filled_from(t, args, 169));
    lemma_regroup("pub extern \"C\" fn "@ + args[0] + "(\n    data: *mut u8,\n    destructor: extern \"C\" fn(*mut u8),\n    call: extern \"C\" fn(data: *mut u8, "@ + args[1], " o: *mut u8),\n    o: *mut u8,\n)"@, filled_from(t, args, 200));
}

proof fn lemma_closure_open_1(args: Seq<Seq<char>>)
    requires
        args.len() == 4,
    ensures
        filled_from(CLOSURE_OPEN@, args, 374) == ("(self.destructor)(self.data)"@) + filled_from(CLOSURE_OPEN@, args, 402),
{
    lemma_closure_open_template();
    let t = CLOSURE_OPEN@;
    lemma_filled_literal(t, args, 374, "(self.destructor)(self.data)"@);
}

proof fn lemma_closure_open_2(args: Seq<Seq<char>>)
    requires
        args.len() == 4,
    ensures
        filled_from(CLOSURE_OPEN@, args, 472) == ("let r: Box<dyn "@ + args[2] + "> = Box::new(move |"@ + args[3] + "| unsafe {"@) + filled_from(CLOSURE_OPEN@, args, 520),
{
    lemma_closure_open_template();
    let t = CLOSURE_OPEN@;
    lemma_filled_literal(t, args, 472, "let r: Box<dyn "@);
    assert(filled_from(t, args, 487) == args[2] + filled_from(t, args, 489));
    lemma_filled_literal(t, args, 489, "> = Box::new(move |"@);
    assert(filled_from(t, args, 508) == args[3] + filled_from(t, args, 510));
    lemma_filled_literal(t, args, 510, "| unsafe {"@);
    lemma_regroup("let r: Box<dyn "@, args[2], filled_from(t, args, 489));
    lemma_regroup("let r: Box<dyn "@ + args[2], "> = Box::new(move |"@, filled_from(t, args, 508));
    lemma_regroup("let r: Box<dyn "@ + args[2] + "> = Box::new(move |"@, args[3], filled_from(t, args, 510));
    lemma_regroup("let r: Box<dyn "@ + args[2] + "> = Box::new(move |"@ + args[3], "| unsafe {"@, filled_from(t, args, 520));
}

/// What `CLOSURE_OPEN` gives holds what is filled in, in its places.
pub proof fn lemma_closure_open(args: Seq<Seq<char>>)
    requires
        args.len() == 4,
    ensures
        holds(filled(CLOSURE_OPEN@, args), seq!["pub extern \"C\" fn "@ + args[0] + "(\n    data: *mut u8,\n    destructor: extern \"C\" fn(*mut u8),\n    call: extern \"C\" fn(data: *mut u8, "@ + args[1] + " o: *mut u8),\n    o: *mut u8,\n)"@, "(self.destructor)(self.data)"@, "let r: Box<dyn "@ + args[2] + "> = Box::new(move |"@ + args[3] + "| unsafe {"@]),
{
    lemma_closure_open_template();
    let t = CLOSURE_OPEN@;
    let parts = seq!["pub extern \"C\" fn "@ + args[0] + "(\n    data: *mut u8,\n    destructor: extern \"C\" fn(*mut u8),\n    call: extern \"C\" fn(data: *mut u8, "@ + args[1] + " o: *mut u8),\n    o: *mut u8,\n)"@, "(self.destructor)(self.data)"@, "let r: Box<dyn "@ + args[2] + "> = Box::new(move |"@ + args[3] + "| unsafe {"@];
    lemma_holds_nothing(filled_from(t, args, 520), parts);
    lemma_closure_open_2(args);
    let before = lemma_filled_reaches(t, args, 402, 472);
    lemma_holds_step(filled_from(t, args, 402), before, filled_from(t, args, 520), parts, 2);
    lemma_closure_open_1(args);
    let before = lemma_filled_reaches(t, args, 200, 374);
    lemma_holds_step(filled_from(t, args, 200), before, filled_from(t, args, 402), parts, 1);
    lemma_closure_open_0(args);
    let before = lemma_filled_reaches(t, args, 0, 47);
    lemma_holds_step(filled_from(t, args, 0), before, filled_from(t, args, 200), parts, 0);
    assert(parts.skip(0) =~= parts);
}

proof fn lemma_fn_open_template()
    ensures
        occurs_at(EXTERN_FN_OPEN@, "pub extern \"C\" fn "@, 47),
        EXTERN_FN_OPEN@[65] == '$',
        EXTERN_FN_OPEN@[66] == '0',
        occurs_at(EXTERN_FN_OPEN@, "("@, 67),
        !is_digit(EXTERN_FN_OPEN@[47]),
        "pub extern \"C\" fn "@.len() == 18,
        !"pub extern \"C\" fn "@.contains('$'),
        "("@.len() == 1,
        !"("@.contains('$'),
        EXTERN_FN_OPEN@.len() == 68,
{
    reveal_strlit(r#"
#[allow(non_snake_case)]
#[unsafe(no_mangle)]
pub extern "C" fn $0("#);
    reveal_strlit("pub extern \"C\" fn ");
    reveal_strlit("(");
    assert(EXTERN_FN_OPEN@.subrange(47, 65) =~= "pub extern \"C\" fn "@);
    assert(EXTERN_FN_OPEN@.subrange(67, 68) =~= "("@);
}

proof fn lemma_fn_open_0(args: Seq<Seq<char>>)
    requires
        args.len() == 1,
    ensures
        filled_from(EXTERN_FN_OPEN@, args, 47) == ("pub extern \"C\" fn "@ + args[0] + "("@) + filled_from(EXTERN_FN_OPEN@, args, 68),
{
    lemma_fn_open_template();
    let t = EXTERN_FN_OPEN@;
    lemma_filled_literal(t, args, 47, "pub extern \"C\" fn "@);
    assert(filled_from(t, args, 65) == args[0] + filled_from(t, args, 67));
    lemma_filled_literal(t, args, 67, "("@);
    lemma_regroup("pub extern \"C\" fn "@, args[0], filled_from(t, args, 67));
    lemma_regroup("pub extern \"C\" fn "@ + args[0], "("@, filled_from(t, args, 68));
}

/// What `EXTERN_FN_OPEN` gives holds what is filled in, in its places.
pub proof fn lemma_fn_open(args: Seq<Seq<char>>)
    requires
        args.len() == 1,
    ensures
        holds(filled(EXTERN_FN_OPEN@, args), seq!["pub extern \"C\" fn "@ + args[0] + "("@]),
{
    lemma_fn_open_template();
    let t = EXTERN_FN_OPEN@;
    let parts = seq!["pub extern \"C\" fn "@ + args[0] + "("@];
    lemma_holds_nothing(filled_from(t, args, 68), parts);
    lemma_fn_open_0(args);
    let before = lemma_filled_reaches(t, args, 0, 47);
    lemma_holds_step(filled_from(t, args, 0), before, filled_from(t, args, 68), parts, 0);
    assert(parts.skip(0) =~= parts);
}

proof fn lemma_struct_write_template()
    ensures
        occurs_at(STRUCT_WRITE@, "::std::ptr::write(o as *mut _, "@, 27),
        STRUCT_WRITE@[58] == '$',
        STRUCT_WRITE@[59] == '0',
        occurs_at(STRUCT_WRITE@, " { "@, 60),
        !is_digit(STRUCT_WRITE@[27]),
        "::std::ptr::write(o as *mut _, "@.len() == 31,
        !"::std::ptr::write(o as *mut _, "@.contains('$'),
        " { "@.len() == 3,
        !" { "@.contains('$'),
        STRUCT_WRITE@.len() == 63,
{
    reveal_strlit(r#"o: *mut u8) { unsafe {
    ::std::ptr::write(o as *mut _, $0 { "#);
    reveal_strlit("::std::ptr::write(o as *mut _, ");
    reveal_strlit(" { ");
    assert(STRUCT_WRITE@.subrange(27, 58) =~= "::std::ptr::write(o as *mut _, "@);
    assert(STRUCT_WRITE@.subrange(60, 63) =~= " { "@);
}

proof fn lemma_struct_write_0(args: Seq<Seq<char>>)
    requires
        args.len() == 1,
    ensures
        filled_from(STRUCT_WRITE@, args, 27) == ("::std::ptr::write(o as *mut _, "@ + args[0] + " { "@) + filled_from(STRUCT_WRITE@, args, 63),
{
    lemma_struct_write_template();
    let t = STRUCT_WRITE@;
    lemma_filled_literal(t, args, 27, "::std::ptr::write(o as *mut _, "@);
    assert(filled_from(t, args, 58) == args[0] + filled_from(t, args, 60));
    lemma_filled_literal(t, args, 60, " { "@);
    lemma_regroup("::std::ptr::write(o as *mut _, "@, args[0], filled_from(t, args, 60));
    lemma_regroup("::std::ptr::write(o as *mut _, "@ + args[0], " { "@, filled_from(t, args, 63));
}

/// What `STRUCT_WRITE` gives holds what is filled in, in its places.
pub proof fn lemma_struct_write(args: Seq<Seq<char>>)
    requires
        args.len() == 1,
    ensures
        holds(filled(STRUCT_WRITE@, args), seq!["::std::ptr::write(o as *mut _, "@ + args[0] + " { "@]),
{
    lemma_struct_write_template();
    let t = STRUCT_WRITE@;
    let parts = seq!["::std::ptr::write(o as *mut _, "@ + args[0] + " { "@];
    lemma_holds_nothing(filled_from(t, args, 63), parts);
    lemma_struct_write_0(args);
    let before = lemma_filled_reaches(t, args, 0, 27);
    lemma_holds_step(filled_from(t, args, 0), before, filled_from(t, args, 63), parts, 0);
    assert(parts.skip(0) =~= parts);
}

proof fn lemma_match_check_template()
    ensures
        occurs_at(MATCH_CHECK@, "pub extern \"C\" fn "@, 47),
        MATCH_CHECK@[65] == '$',
        MATCH_CHECK@[66] == '0',
        occurs_at(MATCH_CHECK@, "(i: *mut u8, o: *mut u8)"@, 67),
        !is_digit(MATCH_CHECK@[47]),
        occurs_at(MATCH_CHECK@, "*o = matches!(&*(i as *mut &_), "@, 107),
        MATCH_CHECK@[139] == '$',
        MATCH_CHECK@[140] == '1',
        occurs_at(MATCH_CHECK@, " { .. }) as u8;"@, 141),
        !is_digit(MATCH_CHECK@[107]),
        "pub extern \"C\" fn "@.len() == 18,
        !"pub extern \"C\" fn "@.contains('$'),
        "(i: *mut u8, o: *mut u8)"@.len() == 24,
        !"(i: *mut u8, o: *mut u8)"@.contains('$'),
        "*o = matches!(&*(i as *mut &_), "@.len() == 32,
        !"*o = matches!(&*(i as *mut &_), "@.contains('$'),
        " { .. }) as u8;"@.len() == 15,
        !" { .. }) as u8;"@.contains('$'),
        MATCH_CHECK@.len() == 160,
{
    reveal_strlit(r#"
#[allow(non_snake_case)]
#[unsafe(no_mangle)]
pub extern "C" fn $0(i: *mut u8, o: *mut u8) { unsafe {
    *o = matches!(&*(i as *mut &_), $1 { .. }) as u8;
} }"#);
    reveal_strlit("pub extern \"C\" fn ");
    reveal_strlit("(i: *mut u8, o: *mut u8)");
    reveal_strlit("*o = matches!(&*(i as *mut &_), ");
    reveal_strlit(" { .. }) as u8;");
    assert(MATCH_CHECK@.subrange(47, 65) =~= "pub extern \"C\" fn "@);
    assert(MATCH_CHECK@.subrange(67, 91) =~= "(i: *mut u8, o: *mut u8)"@);
    assert(MATCH_CHECK@.subrange(107, 139) =~= "*o = matches!(&*(i as *mut &_), "@);
    assert(MATCH_CHECK@.subrange(141, 156) =~= " { .. }) as u8;"@);
}

proof fn lemma_match_check_0(args: Seq<Seq<char>>)
    requires
        args.len() == 2,
    ensures
        filled_from(MATCH_CHECK@, args, 47) == ("pub extern \"C\" fn "@ + args[0] + "(i: *mut u8, o: *mut u8)"@) + filled_from(MATCH_CHECK@, args, 91),
{
    lemma_match_check_template();
    let t = MATCH_CHECK@;
    lemma_filled_literal(t, args, 47, "pub extern \"C\" fn "@);
    assert(filled_from(t, args, 65) == args[0] + filled_from(t, args, 67));
    lemma_filled_literal(t, args, 67, "(i: *mut u8, o: *mut u8)"@);
    lemma_regroup("pub extern \"C\" fn "@, args[0], filled_from(t, args, 67));
    lemma_regroup("pub extern \"C\" fn "@ + args[0], "(i: *mut u8, o: *mut u8)"@, filled_from(t, args, 91));
}

proof fn lemma_match_check_1(args: Seq<Seq<char>>)
    requires
        args.len() == 2,
    ensures
        filled_from(MATCH_CHECK@, args, 107) == ("*o = matches!(&*(i as *mut &_), "@ + args[1] + " { .. }) as u8;"@) + filled_from(MATCH_CHECK@, args, 156),
{
    lemma_match_check_template();
    let t = MATCH_CHECK@;
    lemma_filled_literal(t, args, 107, "*o = matches!(&*(i as *mut &_), "@);
    assert(filled_from(t, args, 139) == args[1] + filled_from(t, args, 141));
    lemma_filled_literal(t, args, 141, " { .. }) as u8;"@);
    lemma_regroup("*o = matches!(&*(i as *mut &_), "@, args[1], filled_from(t, args, 141));
    lemma_regroup("*o = matches!(&*(i as *mut &_), "@ + args[1], " { .. }) as u8;"@, filled_from(t, args, 156));
}

/// What `MATCH_CHECK` gives holds what is filled in, in its places.
pub proof fn lemma_match_check(args: Seq<Seq<char>>)
    requires
        args.len() == 2,
    ensures
        holds(filled(MATCH_CHECK@, args), seq!["pub extern \"C\" fn "@ + args[0] + "(i: *mut u8, o: *mut u8)"@, "*o = matches!(&*(i as *mut &_), "@ + args[1] + " { .. }) as u8;"@]),
{
    lemma_match_check_template();
    let t = MATCH_CHECK@;
    let parts = seq!["pub extern \"C\" fn "@ + args[0] + "(i: *mut u8, o: *mut u8)"@, "*o = matches!(&*(i as *mut &_), "@ + args[1] + " { .. }) as u8;"@];
    lemma_holds_nothing(filled_from(t, args, 156), parts);
    lemma_match_check_1(args);
    let before = lemma_filled_reaches(t, args, 91, 107);
    lemma_holds_step(filled_from(t, args, 91), before, filled_from(t, args, 156), parts, 1);
    lemma_match_check_0(args);
    let before = lemma_filled_reaches(t, args, 0, 47);
    lemma_holds_step(filled_from(t, args, 0), before, filled_from(t, args, 91), parts, 0);
    assert(parts.skip(0) =~= parts);
}

proof fn lemma_discriminant_open_template()
    ensures
        occurs_at(DISCRIMINANT_OPEN@, "pub extern \"C\" fn "@, 47),
        DISCRIMINANT_OPEN@[65] == '$',
        DISCRIMINANT_OPEN@[66] == '0',
        occurs_at(DISCRIMINANT_OPEN@, "(i: *mut u8) -> u32"@, 67),
        !is_digit(DISCRIMINANT_OPEN@[47]),
        occurs_at(DISCRIMINANT_OPEN@, "match &*(i as *mut "@, 102),
        DISCRIMINANT_OPEN@[121] == '$',
        DISCRIMINANT_OPEN@[122] == '1',
        occurs_at(DISCRIMINANT_OPEN@, " as *const _) {"@, 123),
        !is_digit(DISCRIMINANT_OPEN@[102]),
        "pub extern \"C\" fn "@.len() == 18,
        !"pub extern \"C\" fn "@.contains('$'),
        "(i: *mut u8) -> u32"@.len() == 19,
        !"(i: *mut u8) -> u32"@.contains('$'),
        "match &*(i as *mut "@.len() == 19,
        !"match &*(i as *mut "@.contains('$'),
        " as *const _) {"@.len() == 15,
        !" as *const _) {"@.contains('$'),
        DISCRIMINANT_OPEN@.len() == 138,
{
    reveal_strlit(r#"
#[allow(non_snake_case)]
#[unsafe(no_mangle)]
pub extern "C" fn $0(i: *mut u8) -> u32 { unsafe {
    match &*(i as *mut $1 as *const _) {"#);
    reveal_strlit("pub extern \"C\" fn ");
    reveal_strlit("(i: *mut u8) -> u32");
    reveal_strlit("match &*(i as *mut ");
    reveal_strlit(" as *const _) {");
    assert(DISCRIMINANT_OPEN@.subrange(47, 65) =~= "pub extern \"C\" fn "@);
    assert(DISCRIMINANT_OPEN@.subrange(67, 86) =~= "(i: *mut u8) -> u32"@);
    assert(DISCRIMINANT_OPEN@.subrange(102, 121) =~= "match &*(i as *mut "@);
    assert(DISCRIMINANT_OPEN@.subrange(123, 138) =~= " as *const _) {"@);
}

proof fn lemma_discriminant_open_0(args: Seq<Seq<char>>)
    requires
        args.len() == 2,
    ensures
        filled_from(DISCRIMINANT_OPEN@, args, 47) == ("pub extern \"C\" fn "@ + args[0] + "(i: *mut u8) -> u32"@) + filled_from(DISCRIMINANT_OPEN@, args, 86),
{
    lemma_discriminant_open_template();
    let t = DISCRIMINANT_OPEN@;
    lemma_filled_literal(t, args, 47, "pub extern \"C\" fn "@);
    assert(filled_from(t, args, 65) == args[0] + filled_from(t, args, 67));
    lemma_filled_literal(t, args, 67, "(i: *mut u8) -> u32"@);
    lemma_regroup("pub extern \"C\" fn "@, args[0], filled_from(t, args, 67));
    lemma_regroup("pub extern \"C\" fn "@ + args[0], "(i: *mut u8) -> u32"@, filled_from(t, args, 86));
}

proof fn lemma_discriminant_open_1(args: Seq<Seq<char>>)
    requires
        args.len() == 2,
    ensures
        filled_from(DISCRIMINANT_OPEN@, args, 102) == ("match &*(i as *mut "@ + args[1] + " as *const _) {"@) + filled_from(DISCRIMINANT_OPEN@, args, 138),
{
    lemma_discriminant_open_template();
    let t = DISCRIMINANT_OPEN@;
    lemma_filled_literal(t, args, 102, "match &*(i as *mut "@);
    assert(filled_from(t, args, 121) == args[1] + filled_from(t, args, 123));
    lemma_filled_literal(t, args, 123, " as *const _) {"@);
    lemma_regroup("match &*(i as *mut "@, args[1], filled_from(t, args, 123));
    lemma_regroup("match &*(i as *mut "@ + args[1], " as *const _) {"@, filled_from(t, args, 138));
}

/// What `DISCRIMINANT_OPEN` gives holds what is filled in, in its places.
pub proof fn lemma_discriminant_open(args: Seq<Seq<char>>)
    requires
        args.len() == 2,
    ensures
        holds(filled(DISCRIMINANT_OPEN@, args), seq!["pub extern \"C\" fn "@ + args[0] + "(i: *mut u8) -> u32"@, "match &*(i as *mut "@ + args[1] + " as *const _) {"@]),
{
    lemma_discriminant_open_template();
    let t = DISCRIMINANT_OPEN@;
    let parts = seq!["pub extern \"C\" fn "@ + args[0] + "(i: *mut u8) -> u32"@, "match &*(i as *mut "@ + args[1] + " as *const _) {"@];
    lemma_holds_nothing(filled_from(t, args, 138), parts);
    lemma_discriminant_open_1(args);
    let before = lemma_filled_reaches(t, args, 86, 102);
    lemma_holds_step(filled_from(t, args, 86), before, filled_from(t, args, 138), parts, 1);
    lemma_discriminant_open_0(args);
    let before = lemma_filled_reaches(t, args, 0, 47);
    lemma_holds_step(filled_from(t, args, 0), before, filled_from(t, args, 86), parts, 0);
    assert(parts.skip(0) =~= parts);
}

proof fn lemma_discriminant_arm_template()
    ensures
        DISCRIMINANT_ARM@[9] == '$',
        DISCRIMINANT_ARM@[10] == '0',
        occurs_at(DISCRIMINANT_ARM@, "::"@, 11),
        DISCRIMINANT_ARM@[13] == '$',
        DISCRIMINANT_ARM@[14] == '1',
        occurs_at(DISCRIMINANT_ARM@, " { .. } => "@, 15),
        DISCRIMINANT_ARM@[26] == '$',
        DISCRIMINANT_ARM@[27] == '2',
        occurs_at(DISCRIMINANT_ARM@, ","@, 28),
        "::"@.len() == 2,
        !"::"@.contains('$'),
        " { .. } => "@.len() == 11,
        !" { .. } => "@.contains('$'),
        ","@.len() == 1,
        !","@.contains('$'),
        DISCRIMINANT_ARM@.len() == 38,
{
    reveal_strlit(r#"
        $0::$1 { .. } => $2,
        "#);
    reveal_strlit("::");
    reveal_strlit(" { .. } => ");
    reveal_strlit(",");
    assert(DISCRIMINANT_ARM@.subrange(11, 13) =~= "::"@);
    assert(DISCRIMINANT_ARM@.subrange(15, 26) =~= " { .. } => "@);
    assert(DISCRIMINANT_ARM@.subrange(28, 29) =~= ","@);
}

proof fn lemma_discriminant_arm_0(args: Seq<Seq<char>>)
    requires
        args.len() == 3,
    ensures
        filled_from(DISCRIMINANT_ARM@, args, 9) == (args[0] + "::"@ + args[1] + " { .. } => "@ + args[2] + ","@) + filled_from(DISCRIMINANT_ARM@, args, 29),
{
    lemma_discriminant_arm_template();
    let t = DISCRIMINANT_ARM@;
    assert(filled_from(t, args, 9) == args[0] + filled_from(t, args, 11));
    lemma_filled_literal(t, args, 11, "::"@);
    assert(filled_from(t, args, 13) == args[1] + filled_from(t, args, 15));
    lemma_filled_literal(t, args, 15, " { .. } => "@);
    assert(filled_from(t, args, 26) == args[2] + filled_from(t, args, 28));
    lemma_filled_literal(t, args, 28, ","@);
    lemma_regroup(args[0], "::"@, filled_from(t, args, 13));
    lemma_regroup(args[0] + "::"@, args[1], filled_from(t, args, 15));
    lemma_regroup(args[0] + "::"@ + args[1], " { .. } => "@, filled_from(t, args, 26));
    lemma_regroup(args[0] + "::"@ + args[1] + " { .. } => "@, args[2], filled_from(t, args, 28));
    lemma_regroup(args[0] + "::"@ + args[1] + " { .. } => "@ + args[2], ","@, filled_from(t, args, 29));
}

/// What `DISCRIMINANT_ARM` gives holds what is filled in, in its places.
pub proof fn lemma_discriminant_arm(args: Seq<Seq<char>>)
    requires
        args.len() == 3,
    ensures
        holds(filled(DISCRIMINANT_ARM@, args), seq![args[0] + "::"@ + args[1] + " { .. } => "@ + args[2] + ","@]),
{
    lemma_discriminant_arm_template();
    let t = DISCRIMINANT_ARM@;
    let parts = seq![args[0] + "::"@ + args[1] + " { .. } => "@ + args[2] + ","@];
    lemma_holds_nothing(filled_from(t, args, 29), parts);
    lemma_discriminant_arm_0(args);
    let before = lemma_filled_reaches(t, args, 0, 9);
    lemma_holds_step(filled_from(t, args, 0), before, filled_from(t, args, 29), parts, 0);
    assert(parts.skip(0) =~= parts);
}

proof fn lemma_field_offset_template()
    ensures
        occurs_at(FIELD_OFFSET@, "pub static "@, 47),
        FIELD_OFFSET@[58] == '$',
        FIELD_OFFSET@[59] == '0',
        occurs_at(FIELD_OFFSET@, ": usize = ::std::mem::offset_of!("@, 60),
        FIELD_OFFSET@[93] == '$',
        FIELD_OFFSET@[94] == '1',
        occurs_at(FIELD_OFFSET@, ", "@, 95),
        FIELD_OFFSET@[97] == '$',
        FIELD_OFFSET@[98] == '2',
        occurs_at(FIELD_OFFSET@, ");"@, 99),
        !is_digit(FIELD_OFFSET@[47]),
        "pub static "@.len() == 11,
        !"pub static "@.contains('$'),
        ": usize = ::std::mem::offset_of!("@.len() == 33,
        !": usize = ::std::mem::offset_of!("@.contains('$'),
        ", "@.len() == 2,
        !", "@.contains('$'),
        ");"@.len() == 2,
        !");"@.contains('$'),
        FIELD_OFFSET@.len() == 119,
{
    reveal_strlit(r#"
#[allow(non_snake_case)]
#[unsafe(no_mangle)]
pub static $0: usize = ::std::mem::offset_of!($1, $2);
                
"#);
    reveal_strlit("pub static ");
    reveal_strlit(": usize = ::std::mem::offset_of!(");
    reveal_strlit(", ");
    reveal_strlit(");");
    assert(FIELD_OFFSET@.subrange(47, 58) =~= "pub static "@);
    assert(FIELD_OFFSET@.subrange(60, 93) =~= ": usize = ::std::mem::offset_of!("@);
    assert(FIELD_OFFSET@.subrange(95, 97) =~= ", "@);
    assert(FIELD_OFFSET@.subrange(99, 101) =~= ");"@);
}

proof fn lemma_field_offset_0(args: Seq<Seq<char>>)
    requires
        args.len() == 3,
    ensures
        filled_from(FIELD_OFFSET@, args, 47) == ("pub static "@ + args[0] + ": usize = ::std::mem::offset_of!("@ + args[1] + ", "@ + args[2] + ");"@) + filled_from(FIELD_OFFSET@, args, 101),
{
    lemma_field_offset_template();
    let t = FIELD_OFFSET@;
    lemma_filled_literal(t, args, 47, "pub static "@);
    assert(filled_from(t, args, 58) == args[0] + filled_from(t, args, 60));
    lemma_filled_literal(t, args, 60, ": usize = ::std::mem::offset_of!("@);
    assert(filled_from(t, args, 93) == args[1] + filled_from(t, args, 95));
    lemma_filled_literal(t, args, 95, ", "@);
    assert(filled_from(t, args, 97) == args[2] + filled_from(t, args, 99));
    lemma_filled_literal(t, args, 99, ");"@);
    lemma_regroup("pub static "@, args[0], filled_from(t, args, 60));
    lemma_regroup("pub static "@ + args[0], ": usize = ::std::mem::offset_of!("@, filled_from(t, args, 93));
    lemma_regroup("pub static "@ + args[0] + ": usize = ::std::mem::offset_of!("@, args[1], filled_from(t, args, 95));
    lemma_regroup("pub static "@ + args[0] + ": usize = ::std::mem::offset_of!("@ + args[1], ", "@, filled_from(t, args, 97));
    lemma_regroup("pub static "@ + args[0] + ": usize = ::std::mem::offset_of!("@ + args[1] + ", "@, args[2], filled_from(t, args, 99));
    lemma_regroup("pub static "@ + args[0] + ": usize = ::std::mem::offset_of!("@ + args[1] + ", "@ + args[2], ");"@, filled_from(t, args, 101));
}

/// What `FIELD_OFFSET` gives holds what is filled in, in its places.
pub proof fn lemma_field_offset(args: Seq<Seq<char>>)
    requires
        args.len() == 3,
    ensures
        holds(filled(FIELD_OFFSET@, args), seq!["pub static "@ + args[0] + ": usize = ::std::mem::offset_of!("@ + args[1] + ", "@ + args[2] + ");"@]),
{
    lemma_field_offset_template();
    let t = FIELD_OFFSET@;
    let parts = seq!["pub static "@ + args[0] + ": usize = ::std::mem::offset_of!("@ + args[1] + ", "@ + args[2] + ");"@];
    lemma_holds_nothing(filled_from(t, args, 101), parts);
    lemma_field_offset_0(args);
    let before = lemma_filled_reaches(t, args, 0, 47);
    lemma_holds_step(filled_from(t, args, 0), before, filled_from(t, args, 101), parts, 0);
    assert(parts.skip(0) =~= parts);
}

proof fn lemma_variant_field_offset_template()
    ensures
        occurs_at(VARIANT_FIELD_OFFSET@, "pub extern \"C\" fn "@, 47),
        VARIANT_FIELD_OFFSET@[65] == '$',
        VARIANT_FIELD_OFFSET@[66] == '0',
        occurs_at(VARIANT_FIELD_OFFSET@, "(i: *const u8) -> usize"@, 67),
        !is_digit(VARIANT_FIELD_OFFSET@[47]),
        occurs_at(VARIANT_FIELD_OFFSET@, "let base = &*(i as *const "@, 106),
        VARIANT_FIELD_OFFSET@[132] == '$',
        VARIANT_FIELD_OFFSET@[133] == '1',
        occurs_at(VARIANT_FIELD_OFFSET@, ");"@, 134),
        !is_digit(VARIANT_FIELD_OFFSET@[106]),
        VARIANT_FIELD_OFFSET@[162] == '$',
        VARIANT_FIELD_OFFSET@[163] == '1',
        occurs_at(VARIANT_FIELD_OFFSET@, "::"@, 164),
        VARIANT_FIELD_OFFSET@[166] == '$',
        VARIANT_FIELD_OFFSET@[167] == '2',
        occurs_at(VARIANT_FIELD_OFFSET@, " { "@, 168),
        VARIANT_FIELD_OFFSET@[171] == '$',
        VARIANT_FIELD_OFFSET@[172] == '3',
        occurs_at(VARIANT_FIELD_OFFSET@, ": f, .. } => {\n            (f as *const _ as usize) - (base as *const _ as usize)"@, 173),
        "pub extern \"C\" fn "@.len() == 18,
        !"pub extern \"C\" fn "@.contains('$'),
        "(i: *const u8) -> usize"@.len() == 23,
        !"(i: *const u8) -> usize"@.contains('$'),
        "let base = &*(i as *const "@.len() == 26,
        !"let base = &*(i as *const "@.contains('$'),
        ");"@.len() == 2,
        !");"@.contains('$'),
        "::"@.len() == 2,
        !"::"@.contains('$'),
        " { "@.len() == 3,
        !" { "@.contains('$'),
        ": f, .. } => {\n            (f as *const _ as usize) - (base as *const _ as usize)"@.len() == 81,
        !": f, .. } => {\n            (f as *const _ as usize) - (base as *const _ as usize)"@.contains('$'),
        VARIANT_FIELD_OFFSET@.len() == 337,
{
    reveal_strlit(r#"
#[allow(non_snake_case)]
#[unsafe(no_mangle)]
pub extern "C" fn $0(i: *const u8) -> usize { unsafe {
    let base = &*(i as *const $1);
    match base {
        $1::$2 { $3: f, .. } => {
            (f as *const _ as usize) - (base as *const _ as usize)
        }
        _ => std::hint::unreachable_unchecked(),
    }
} }
            
"#);
    reveal_strlit("pub extern \"C\" fn ");
    reveal_strlit("(i: *const u8) -> usize");
    reveal_strlit("let base = &*(i as *const ");
    reveal_strlit(");");
    reveal_strlit("::");
    reveal_strlit(" { ");
    reveal_strlit(": f, .. } => {\n            (f as *const _ as usize) - (base as *const _ as usize)");
    assert(VARIANT_FIELD_OFFSET@.subrange(47, 65) =~= "pub extern \"C\" fn "@);
    assert(VARIANT_FIELD_OFFSET@.subrange(67, 90) =~= "(i: *const u8) -> usize"@);
    assert(VARIANT_FIELD_OFFSET@.subrange(106, 132) =~= "let base = &*(i as *const "@);
    assert(VARIANT_FIELD_OFFSET@.subrange(134, 136) =~= ");"@);
    assert(VARIANT_FIELD_OFFSET@.subrange(164, 166) =~= "::"@);
    assert(VARIANT_FIELD_OFFSET@.subrange(168, 171) =~= " { "@);
    assert(VARIANT_FIELD_OFFSET@.subrange(173, 254) =~= ": f, .. } => {\n            (f as *const _ as usize) - (base as *const _ as usize)"@);
}

proof fn lemma_variant_field_offset_0(args: Seq<Seq<char>>)
    requires
        args.len() == 4,
    ensures
        filled_from(VARIANT_FIELD_OFFSET@, args, 47) == ("pub extern \"C\" fn "@ + args[0] + "(i: *const u8) -> usize"@) + filled_from(VARIANT_FIELD_OFFSET@, args, 90),
{
    lemma_variant_field_offset_template();
    let t = VARIANT_FIELD_OFFSET@;
    lemma_filled_literal(t, args, 47, "pub extern \"C\" fn "@);
    assert(filled_from(t, args, 65) == args[0] + filled_from(t, args, 67));
    lemma_filled_literal(t, args, 67, "(i: *const u8) -> usize"@);
    lemma_regroup("pub extern \"C\" fn "@, args[0], filled_from(t, args, 67));
    lemma_regroup("pub extern \"C\" fn "@ + args[0], "(i: *const u8) -> usize"@, filled_from(t, args, 90));
}

proof fn lemma_variant_field_offset_1(args: Seq<Seq<char>>)
    requires
        args.len() == 4,
    ensures
        filled_from(VARIANT_FIELD_OFFSET@, args, 106) == ("let base = &*(i as *const "@ + args[1] + ");"@) + filled_from(VARIANT_FIELD_OFFSET@, args, 136),
{
    lemma_variant_field_offset_template();
    let t = VARIANT_FIELD_OFFSET@;
    lemma_filled_literal(t, args, 106, "let base = &*(i as *const "@);
    assert(filled_from(t, args, 132) == args[1] + filled_from(t, args, 134));
    lemma_filled_literal(t, args, 134, ");"@);
    lemma_regroup("let base = &*(i as *const "@, args[1], filled_from(t, args, 134));
    lemma_regroup("let base = &*(i as *const "@ + args[1], ");"@, filled_from(t, args, 136));
}

proof fn lemma_variant_field_offset_2(args: Seq<Seq<char>>)
    requires
        args.len() == 4,
    ensures
        filled_from(VARIANT_FIELD_OFFSET@, args, 162) == (args[1] + "::"@ + args[2] + " { "@ + args[3] + ": f, .. } => {\n            (f as *const _ as usize) - (base as *const _ as usize)"@) + filled_from(VARIANT_FIELD_OFFSET@, args, 254),
{
    lemma_variant_field_offset_template();
    let t = VARIANT_FIELD_OFFSET@;
    assert(filled_from(t, args, 162) == args[1] + filled_from(t, args, 164));
    lemma_filled_literal(t, args, 164, "::"@);
    assert(filled_from(t, args, 166) == args[2] + filled_from(t, args, 168));
    lemma_filled_literal(t, args, 168, " { "@);
    assert(filled_from(t, args, 171) == args[3] + filled_from(t, args, 173));
    lemma_filled_literal(t, args, 173, ": f, .. } => {\n            (f as *const _ as usize) - (base as *const _ as usize)"@);
    lemma_regroup(args[1], "::"@, filled_from(t, args, 166));
    lemma_regroup(args[1] + "::"@, args[2], filled_from(t, args, 168));
    lemma_regroup(args[1] + "::"@ + args[2], " { "@, filled_from(t, args, 171));
    lemma_regroup(args[1] + "::"@ + args[2] + " { "@, args[3], filled_from(t, args, 173));
    lemma_regroup(args[1] + "::"@ + args[2] + " { "@ + args[3], ": f, .. } => {\n            (f as *const _ as usize) - (base as *const _ as usize)"@, filled_from(t, args, 254));
}

/// What `VARIANT_FIELD_OFFSET` gives holds what is filled in, in its places.
pub proof fn lemma_variant_field_offset(args: Seq<Seq<char>>)
    requires
        args.len() == 4,
    ensures
        holds(filled(VARIANT_FIELD_OFFSET@, args), seq!["pub extern \"C\" fn "@ + args[0] + "(i: *const u8) -> usize"@, "let base = &*(i as *const "@ + args[1] + ");"@, args[1] + "::"@ + args[2] + " { "@ + args[3] + ": f, .. } => {\n            (f as *const _ as usize) - (base as *const _ as usize)"@]),
{
    lemma_variant_field_offset_template();
    let t = VARIANT_FIELD_OFFSET@;
    let parts = seq!["pub extern \"C\" fn "@ + args[0] + "(i: *const u8) -> usize"@, "let base = &*(i as *const "@ + args[1] + ");"@, args[1] + "::"@ + args[2] + " { "@ + args[3] + ": f, .. } => {\n            (f as *const _ as usize) - (base as *const _ as usize)"@];
    lemma_holds_nothing(filled_from(t, args, 254), parts);
    lemma_variant_field_offset_2(args);
    let before = lemma_filled_reaches(t, args, 136, 162);
    lemma_holds_step(filled_from(t, args, 136), before, filled_from(t, args, 254), parts, 2);
    lemma_variant_field_offset_1(args);
    let before = lemma_filled_reaches(t, args, 90, 106);
    lemma_holds_step(filled_from(t, args, 90), before, filled_from(t, args, 136), parts, 1);
    lemma_variant_field_offset_0(args);
    let before = lemma_filled_reaches(t, args, 0, 47);
    lemma_holds_step(filled_from(t, args, 0), before, filled_from(t, args, 90), parts, 0);
    assert(parts.skip(0) =~= parts);
}

proof fn lemma_cpp_fn_open_template()
    ensures
        occurs_at(EXTERN_CPP_FN_OPEN@, "unsafe extern \"C\" { fn "@, 1),
        EXTERN_CPP_FN_OPEN@[24] == '$',
        EXTERN_CPP_FN_OPEN@[25] == '0',
        occurs_at(EXTERN_CPP_FN_OPEN@, "("@, 26),
        !is_digit(EXTERN_CPP_FN_OPEN@[1]),
        "unsafe extern \"C\" { fn "@.len() == 23,
        !"unsafe extern \"C\" { fn "@.contains('$'),
        "("@.len() == 1,
        !"("@.contains('$'),
        EXTERN_CPP_FN_OPEN@.len() == 27,
{
    reveal_strlit(r#"
unsafe extern "C" { fn $0("#);
    reveal_strlit("unsafe extern \"C\" { fn ");
    reveal_strlit("(");
    assert(EXTERN_CPP_FN_OPEN@.subrange(1, 24) =~= "unsafe extern \"C\" { fn "@);
    assert(EXTERN_CPP_FN_OPEN@.subrange(26, 27) =~= "("@);
}

proof fn lemma_cpp_fn_open_0(args: Seq<Seq<char>>)
    requires
        args.len() == 1,
    ensures
        filled_from(EXTERN_CPP_FN_OPEN@, args, 1) == ("unsafe extern \"C\" { fn "@ + args[0] + "("@) + filled_from(EXTERN_CPP_FN_OPEN@, args, 27),
{
    lemma_cpp_fn_open_template();
    let t = EXTERN_CPP_FN_OPEN@;
    lemma_filled_literal(t, args, 1, "unsafe extern \"C\" { fn "@);
    assert(filled_from(t, args, 24) == args[0] + filled_from(t, args, 26));
    lemma_filled_literal(t, args, 26, "("@);
    lemma_regroup("unsafe extern \"C\" { fn "@, args[0], filled_from(t, args, 26));
    lemma_regroup("unsafe extern \"C\" { fn "@ + args[0], "("@, filled_from(t, args, 27));
}

/// What `EXTERN_CPP_FN_OPEN` gives holds what is filled in, in its places.
pub proof fn lemma_cpp_fn_open(args: Seq<Seq<char>>)
    requires
        args.len() == 1,
    ensures
        holds(filled(EXTERN_CPP_FN_OPEN@, args), seq!["unsafe extern \"C\" { fn "@ + args[0] + "("@]),
{
    lemma_cpp_fn_open_template();
    let t = EXTERN_CPP_FN_OPEN@;
    let parts = seq!["unsafe extern \"C\" { fn "@ + args[0] + "("@];
    lemma_holds_nothing(filled_from(t, args, 27), parts);
    lemma_cpp_fn_open_0(args);
    let before = lemma_filled_reaches(t, args, 0, 1);
    lemma_holds_step(filled_from(t, args, 0), before, filled_from(t, args, 27), parts, 0);
    assert(parts.skip(0) =~= parts);
}

proof fn lemma_drop_shim_template()
    ensures
        occurs_at(DROP_SHIM@, "pub extern \"C\" fn "@, 142),
        DROP_SHIM@[160] == '$',
        DROP_SHIM@[161] == '0',
        occurs_at(DROP_SHIM@, "(v: *mut u8)"@, 162),
        !is_digit(DROP_SHIM@[142]),
        occurs_at(DROP_SHIM@, "::std::ptr::drop_in_place(v as *mut "@, 190),
        DROP_SHIM@[226] == '$',
        DROP_SHIM@[227] == '1',
        occurs_at(DROP_SHIM@, ");"@, 228),
        !is_digit(DROP_SHIM@[190]),
        "pub extern \"C\" fn "@.len() == 18,
        !"pub extern \"C\" fn "@.contains('$'),
        "(v: *mut u8)"@.len() == 12,
        !"(v: *mut u8)"@.contains('$'),
        "::std::ptr::drop_in_place(v as *mut "@.len() == 36,
        !"::std::ptr::drop_in_place(v as *mut "@.contains('$'),
        ");"@.len() == 2,
        !");"@.contains('$'),
        DROP_SHIM@.len() == 235,
{
    reveal_strlit(r#"
#[allow(non_snake_case)]
#[allow(dropping_copy_types)]
#[allow(dropping_references)]
#[allow(undropped_manually_drops)]
#[unsafe(no_mangle)]
pub extern "C" fn $0(v: *mut u8) { unsafe {
    ::std::ptr::drop_in_place(v as *mut $1);
} }
"#);
    reveal_strlit("pub extern \"C\" fn ");
    reveal_strlit("(v: *mut u8)");
    reveal_strlit("::std::ptr::drop_in_place(v as *mut ");
    reveal_strlit(");");
    assert(DROP_SHIM@.subrange(142, 160) =~= "pub extern \"C\" fn "@);
    assert(DROP_SHIM@.subrange(162, 174) =~= "(v: *mut u8)"@);
    assert(DROP_SHIM@.subrange(190, 226) =~= "::std::ptr::drop_in_place(v as *mut "@);
    assert(DROP_SHIM@.subrange(228, 230) =~= ");"@);
}

proof fn lemma_drop_shim_0(args: Seq<Seq<char>>)
    requires
        args.len() == 2,
    ensures
        filled_from(DROP_SHIM@, args, 142) == ("pub extern \"C\" fn "@ + args[0] + "(v: *mut u8)"@) + filled_from(DROP_SHIM@, args, 174),
{
    lemma_drop_shim_template();
    let t = DROP_SHIM@;
    lemma_filled_literal(t, args, 142, "pub extern \"C\" fn "@);
    assert(filled_from(t, args, 160) == args[0] + filled_from(t, args, 162));
    lemma_filled_literal(t, args, 162, "(v: *mut u8)"@);
    lemma_regroup("pub extern \"C\" fn "@, args[0], filled_from(t, args, 162));
    lemma_regroup("pub extern \"C\" fn "@ + args[0], "(v: *mut u8)"@, filled_from(t, args, 174));
}

proof fn lemma_drop_shim_1(args: Seq<Seq<char>>)
    requires
        args.len() == 2,
    ensures
        filled_from(DROP_SHIM@, args, 190) == ("::std::ptr::drop_in_place(v as *mut "@ + args[1] + ");"@) + filled_from(DROP_SHIM@, args, 230),
{
    lemma_drop_shim_template();
    let t = DROP_SHIM@;
    lemma_filled_literal(t, args, 190, "::std::ptr::drop_in_place(v as *mut "@);
    assert(filled_from(t, args, 226) == args[1] + filled_from(t, args, 228));
    lemma_filled_literal(t, args, 228, ");"@);
    lemma_regroup("::std::ptr::drop_in_place(v as *mut "@, args[1], filled_from(t, args, 228));
    lemma_regroup("::std::ptr::drop_in_place(v as *mut "@ + args[1], ");"@, filled_from(t, args, 230));
}

/// What `DROP_SHIM` gives holds what is filled in, in its places.
pub proof fn lemma_drop_shim(args: Seq<Seq<char>>)
    requires
        args.len() == 2,
    ensures
        holds(filled(DROP_SHIM@, args), seq!["pub extern \"C\" fn "@ + args[0] + "(v: *mut u8)"@, "::std::ptr::drop_in_place(v as *mut "@ + args[1] + ");"@]),
{
    lemma_drop_shim_template();
    let t = DROP_SHIM@;
    let parts = seq!["pub extern \"C\" fn "@ + args[0] + "(v: *mut u8)"@, "::std::ptr::drop_in_place(v as *mut "@ + args[1] + ");"@];
    lemma_holds_nothing(filled_from(t, args, 230), parts);
    lemma_drop_shim_1(args);
    let before = lemma_filled_reaches(t, args, 174, 190);
    lemma_holds_step(filled_from(t, args, 174), before, filled_from(t, args, 230), parts, 1);
    lemma_drop_shim_0(args);
    let before = lemma_filled_reaches(t, args, 0, 142);
    lemma_holds_step(filled_from(t, args, 0), before, filled_from(t, args, 174), parts, 0);
    assert(parts.skip(0) =~= parts);
}

proof fn lemma_pretty_print_shim_template()
    ensures
        occurs_at(PRETTY_PRINT_SHIM@, "pub extern \"C\" fn "@, 47),
        PRETTY_PRINT_SHIM@[65] == '$',
        PRETTY_PRINT_SHIM@[66] == '0',
        occurs_at(PRETTY_PRINT_SHIM@, "(v: *mut u8)"@, 67),
        !is_digit(PRETTY_PRINT_SHIM@[47]),
        occurs_at(PRETTY_PRINT_SHIM@, "eprintln!(\"{:#?}\", unsafe { &*(v as *mut "@, 86),
        PRETTY_PRINT_SHIM@[127] == '$',
        PRETTY_PRINT_SHIM@[128] == '1',
        occurs_at(PRETTY_PRINT_SHIM@, ") });"@, 129),
        !is_digit(PRETTY_PRINT_SHIM@[86]),
        "pub extern \"C\" fn "@.len() == 18,
        !"pub extern \"C\" fn "@.contains('$'),
        "(v: *mut u8)"@.len() == 12,
        !"(v: *mut u8)"@.contains('$'),
        "eprintln!(\"{:#?}\", unsafe { &*(v as *mut "@.len() == 41,
        !"eprintln!(\"{:#?}\", unsafe { &*(v as *mut "@.contains('$'),
        ") });"@.len() == 5,
        !") });"@.contains('$'),
        PRETTY_PRINT_SHIM@.len() == 137,
{
    reveal_strlit(r#"
#[allow(non_snake_case)]
#[unsafe(no_mangle)]
pub extern "C" fn $0(v: *mut u8) {
    eprintln!("{:#?}", unsafe { &*(v as *mut $1) });
}
"#);
    reveal_strlit("pub extern \"C\" fn ");
    reveal_strlit("(v: *mut u8)");
    reveal_strlit("eprintln!(\"{:#?}\", unsafe { &*(v as *mut ");
    reveal_strlit(") });");
    assert(PRETTY_PRINT_SHIM@.subrange(47, 65) =~= "pub extern \"C\" fn "@);
    assert(PRETTY_PRINT_SHIM@.subrange(67, 79) =~= "(v: *mut u8)"@);
    assert(PRETTY_PRINT_SHIM@.subrange(86, 127) =~= "eprintln!(\"{:#?}\", unsafe { &*(v as *mut "@);
    assert(PRETTY_PRINT_SHIM@.subrange(129, 134) =~= ") });"@);
}

proof fn lemma_pretty_print_shim_0(args: Seq<Seq<char>>)
    requires
        args.len() == 2,
    ensures
        filled_from(PRETTY_PRINT_SHIM@, args, 47) == ("pub extern \"C\" fn "@ + args[0] + "(v: *mut u8)"@) + filled_from(PRETTY_PRINT_SHIM@, args, 79),
{
    lemma_pretty_print_shim_template();
    let t = PRETTY_PRINT_SHIM@;
    lemma_filled_literal(t, args, 47, "pub extern \"C\" fn "@);
    assert(filled_from(t, args, 65) == args[0] + filled_from(t, args, 67));
    lemma_filled_literal(t, args, 67, "(v: *mut u8)"@);
    lemma_regroup("pub extern \"C\" fn "@, args[0], filled_from(t, args, 67));
    lemma_regroup("pub extern \"C\" fn "@ + args[0], "(v: *mut u8)"@, filled_from(t, args, 79));
}

proof fn lemma_pretty_print_shim_1(args: Seq<Seq<char>>)
    requires
        args.len() == 2,
    ensures
        filled_from(PRETTY_PRINT_SHIM@, args, 86) == ("eprintln!(\"{:#?}\", unsafe { &*(v as *mut "@ + args[1] + ") });"@) + filled_from(PRETTY_PRINT_SHIM@, args, 134),
{
    lemma_pretty_print_shim_template();
    let t = PRETTY_PRINT_SHIM@;
    lemma_filled_literal(t, args, 86, "eprintln!(\"{:#?}\", unsafe { &*(v as *mut "@);
    assert(filled_from(t, args, 127) == args[1] + filled_from(t, args, 129));
    lemma_filled_literal(t, args, 129, ") });"@);
    lemma_regroup("eprintln!(\"{:#?}\", unsafe { &*(v as *mut "@, args[1], filled_from(t, args, 129));
    lemma_regroup("eprintln!(\"{:#?}\", unsafe { &*(v as *mut "@ + args[1], ") });"@, filled_from(t, args, 134));
}

/// What `PRETTY_PRINT_SHIM` gives holds what is filled in, in its places.
pub proof fn lemma_pretty_print_shim(args: Seq<Seq<char>>)
    requires
        args.len() == 2,
    ensures
        holds(filled(PRETTY_PRINT_SHIM@, args), seq!["pub extern \"C\" fn "@ + args[0] + "(v: *mut u8)"@, "eprintln!(\"{:#?}\", unsafe { &*(v as *mut "@ + args[1] + ") });"@]),
{
    lemma_pretty_print_shim_template();
    let t = PRETTY_PRINT_SHIM@;
    let parts = seq!["pub extern \"C\" fn "@ + args[0] + "(v: *mut u8)"@, "eprintln!(\"{:#?}\", unsafe { &*(v as *mut "@ + args[1] + ") });"@];
    lemma_holds_nothing(filled_from(t, args, 134), parts);
    lemma_pretty_print_shim_1(args);
    let before = lemma_filled_reaches(t, args, 79, 86);
    lemma_holds_step(filled_from(t, args, 79), before, filled_from(t, args, 134), parts, 1);
    lemma_pretty_print_shim_0(args);
    let before = lemma_filled_reaches(t, args, 0, 47);
    lemma_holds_step(filled_from(t, args, 0), before, filled_from(t, args, 79), parts, 0);
    assert(parts.skip(0) =~= parts);
}

proof fn lemma_debug_print_shim_template()
    ensures
        occurs_at(DEBUG_PRINT_SHIM@, "pub extern \"C\" fn "@, 47),
        DEBUG_PRINT_SHIM@[65] == '$',
        DEBUG_PRINT_SHIM@[66] == '0',
        occurs_at(DEBUG_PRINT_SHIM@, "(v: *mut u8)"@, 67),
        !is_digit(DEBUG_PRINT_SHIM@[47]),
        occurs_at(DEBUG_PRINT_SHIM@, "eprintln!(\"{:?}\", unsafe { &*(v as *mut "@, 86),
        DEBUG_PRINT_SHIM@[126] == '$',
        DEBUG_PRINT_SHIM@[127] == '1',
        occurs_at(DEBUG_PRINT_SHIM@, ") });"@, 128),
        !is_digit(DEBUG_PRINT_SHIM@[86]),
        "pub extern \"C\" fn "@.len() == 18,
        !"pub extern \"C\" fn "@.contains('$'),
        "(v: *mut u8)"@.len() == 12,
        !"(v: *mut u8)"@.contains('$'),
        "eprintln!(\"{:?}\", unsafe { &*(v as *mut "@.len() == 40,
        !"eprintln!(\"{:?}\", unsafe { &*(v as *mut "@.contains('$'),
        ") });"@.len() == 5,
        !") });"@.contains('$'),
        DEBUG_PRINT_SHIM@.len() == 136,
{
    reveal_strlit(r#"
#[allow(non_snake_case)]
#[unsafe(no_mangle)]
pub extern "C" fn $0(v: *mut u8) {
    eprintln!("{:?}", unsafe { &*(v as *mut $1) });
}
"#);
    reveal_strlit("pub extern \"C\" fn ");
    reveal_strlit("(v: *mut u8)");
    reveal_strlit("eprintln!(\"{:?}\", unsafe { &*(v as *mut ");
    reveal_strlit(") });");
    assert(DEBUG_PRINT_SHIM@.subrange(47, 65) =~= "pub extern \"C\" fn "@);
    assert(DEBUG_PRINT_SHIM@.subrange(67, 79) =~= "(v: *mut u8)"@);
    assert(DEBUG_PRINT_SHIM@.subrange(86, 126) =~= "eprintln!(\"{:?}\", unsafe { &*(v as *mut "@);
    assert(DEBUG_PRINT_SHIM@.subrange(128, 133) =~= ") });"@);
}

proof fn lemma_debug_print_shim_0(args: Seq<Seq<char>>)
    requires
        args.len() == 2,
    ensures
        filled_from(DEBUG_PRINT_SHIM@, args, 47) == ("pub extern \"C\" fn "@ + args[0] + "(v: *mut u8)"@) + filled_from(DEBUG_PRINT_SHIM@, args, 79),
{
    lemma_debug_print_shim_template();
    let t = DEBUG_PRINT_SHIM@;
    lemma_filled_literal(t, args, 47, "pub extern \"C\" fn "@);
    assert(filled_from(t, args, 65) == args[0] + filled_from(t, args, 67));
    lemma_filled_literal(t, args, 67, "(v: *mut u8)"@);
    lemma_regroup("pub extern \"C\" fn "@, args[0], filled_from(t, args, 67));
    lemma_regroup("pub extern \"C\" fn "@ + args[0], "(v: *mut u8)"@, filled_from(t, args, 79));
}

proof fn lemma_debug_print_shim_1(args: Seq<Seq<char>>)
    requires
        args.len() == 2,
    ensures
        filled_from(DEBUG_PRINT_SHIM@, args, 86) == ("eprintln!(\"{:?}\", unsafe { &*(v as *mut "@ + args[1] + ") });"@) + filled_from(DEBUG_PRINT_SHIM@, args, 133),
{
    lemma_debug_print_shim_template();
    let t = DEBUG_PRINT_SHIM@;
    lemma_filled_literal(t, args, 86, "eprintln!(\"{:?}\", unsafe { &*(v as *mut "@);
    assert(filled_from(t, args, 126) == args[1] + filled_from(t, args, 128));
    lemma_filled_literal(t, args, 128, ") });"@);
    lemma_regroup("eprintln!(\"{:?}\", unsafe { &*(v as *mut "@, args[1], filled_from(t, args, 128));
    lemma_regroup("eprintln!(\"{:?}\", unsafe { &*(v as *mut "@ + args[1], ") });"@, filled_from(t, args, 133));
}

/// What `DEBUG_PRINT_SHIM` gives holds what is filled in, in its places.
pub proof fn lemma_debug_print_shim(args: Seq<Seq<char>>)
    requires
        args.len() == 2,
    ensures
        holds(filled(DEBUG_PRINT_SHIM@, args), seq!["pub extern \"C\" fn "@ + args[0] + "(v: *mut u8)"@, "eprintln!(\"{:?}\", unsafe { &*(v as *mut "@ + args[1] + ") });"@]),
{
    lemma_debug_print_shim_template();
    let t = DEBUG_PRINT_SHIM@;
    let parts = seq!["pub extern \"C\" fn "@ + args[0] + "(v: *mut u8)"@, "eprintln!(\"{:?}\", unsafe { &*(v as *mut "@ + args[1] + ") });"@];
    lemma_holds_nothing(filled_from(t, args, 133), parts);
    lemma_debug_print_shim_1(args);
    let before = lemma_filled_reaches(t, args, 79, 86);
    lemma_holds_step(filled_from(t, args, 79), before, filled_from(t, args, 133), parts, 1);
    lemma_debug_print_shim_0(args);
    let before = lemma_filled_reaches(t, args, 0, 47);
    lemma_holds_step(filled_from(t, args, 0), before, filled_from(t, args, 79), parts, 0);
    assert(parts.skip(0) =~= parts);
}

proof fn lemma_heap_shims_template()
    ensures
        occurs_at(HEAP_SHIMS@, "pub fn "@, 95),
        HEAP_SHIMS@[102] == '$',
        HEAP_SHIMS@[103] == '0',
        occurs_at(HEAP_SHIMS@, "() -> usize {"@, 104),
        !is_digit(HEAP_SHIMS@[95]),
        occurs_at(HEAP_SHIMS@, "::std::mem::size_of::<"@, 138),
        HEAP_SHIMS@[160] == '$',
        HEAP_SHIMS@[161] == '3',
        occurs_at(HEAP_SHIMS@, ">()"@, 162),
        !is_digit(HEAP_SHIMS@[138]),
        occurs_at(HEAP_SHIMS@, "pub fn "@, 287),
        HEAP_SHIMS@[294] == '$',
        HEAP_SHIMS@[295] == '1',
        occurs_at(HEAP_SHIMS@, "() -> *mut u8 {"@, 296),
        !is_digit(HEAP_SHIMS@[287]),
        occurs_at(HEAP_SHIMS@, "::std::alloc::alloc(::std::alloc::Layout::new::<"@, 341),
        HEAP_SHIMS@[389] == '$',
        HEAP_SHIMS@[390] == '3',
        occurs_at(HEAP_SHIMS@, ">())"@, 391),
        !is_digit(HEAP_SHIMS@[341]),
        occurs_at(HEAP_SHIMS@, "pub fn "@, 511),
        HEAP_SHIMS@[518] == '$',
        HEAP_SHIMS@[519] == '2',
        occurs_at(HEAP_SHIMS@, "(p: *mut u8) {"@, 520),
        !is_digit(HEAP_SHIMS@[511]),
        occurs_at(HEAP_SHIMS@, "::std::alloc::dealloc(p, ::std::alloc::Layout::new::<"@, 564),
        HEAP_SHIMS@[617] == '$',
        HEAP_SHIMS@[618] == '3',
        occurs_at(HEAP_SHIMS@, ">())"@, 619),
        !is_digit(HEAP_SHIMS@[564]),
        "pub fn "@.len() == 7,
        !"pub fn "@.contains('$'),
        "() -> usize {"@.len() == 13,
        !"() -> usize {"@.contains('$'),
        "::std::mem::size_of::<"@.len() == 22,
        !"::std::mem::size_of::<"@.contains('$'),
        ">()"@.len() == 3,
        !">()"@.contains('$'),
        "() -> *mut u8 {"@.len() == 15,
        !"() -> *mut u8 {"@.contains('$'),
        "::std::alloc::alloc(::std::alloc::Layout::new::<"@.len() == 48,
        !"::std::alloc::alloc(::std::alloc::Layout::new::<"@.contains('$'),
        ">())"@.len() == 4,
        !">())"@.contains('$'),
        "(p: *mut u8) {"@.len() == 14,
        !"(p: *mut u8) {"@.contains('$'),
        "::std::alloc::dealloc(p, ::std::alloc::Layout::new::<"@.len() == 53,
        !"::std::alloc::dealloc(p, ::std::alloc::Layout::new::<"@.contains('$'),
        HEAP_SHIMS@.len() == 661,
{
    reveal_strlit(r#"
                #[allow(non_snake_case)]
                #[unsafe(no_mangle)]
                pub fn $0() -> usize {
                    ::std::mem::size_of::<$3>()
                }
        
                #[allow(non_snake_case)]
                #[unsafe(no_mangle)]
                pub fn $1() -> *mut u8 {
                    unsafe { ::std::alloc::alloc(::std::alloc::Layout::new::<$3>()) }
                }

                #[allow(non_snake_case)]
                #[unsafe(no_mangle)]
                pub fn $2(p: *mut u8) {
                    unsafe { ::std::alloc::dealloc(p, ::std::alloc::Layout::new::<$3>()) }
                }
                
"#);
    reveal_strlit("pub fn ");
    reveal_strlit("() -> usize {");
    reveal_strlit("::std::mem::size_of::<");
    reveal_strlit(">()");
    reveal_strlit("() -> *mut u8 {");
    reveal_strlit("::std::alloc::alloc(::std::alloc::Layout::new::<");
    reveal_strlit(">())");
    reveal_strlit("(p: *mut u8) {");
    reveal_strlit("::std::alloc::dealloc(p, ::std::alloc::Layout::new::<");
    assert(HEAP_SHIMS@.subrange(95, 102) =~= "pub fn "@);
    assert(HEAP_SHIMS@.subrange(104, 117) =~= "() -> usize {"@);
    assert(HEAP_SHIMS@.subrange(138, 160) =~= "::std::mem::size_of::<"@);
    assert(HEAP_SHIMS@.subrange(162, 165) =~= ">()"@);
    assert(HEAP_SHIMS@.subrange(287, 294) =~= "pub fn "@);
    assert(HEAP_SHIMS@.subrange(296, 311) =~= "() -> *mut u8 {"@);
    assert(HEAP_SHIMS@.subrange(341, 389) =~= "::std::alloc::alloc(::std::alloc::Layout::new::<"@);
    assert(HEAP_SHIMS@.subrange(391, 395) =~= ">())"@);
    assert(HEAP_SHIMS@.subrange(511, 518) =~= "pub fn "@);
    assert(HEAP_SHIMS@.subrange(520, 534) =~= "(p: *mut u8) {"@);
    assert(HEAP_SHIMS@.subrange(564, 617) =~= "::std::alloc::dealloc(p, ::std::alloc::Layout::new::<"@);
    assert(HEAP_SHIMS@.subrange(619, 623) =~= ">())"@);
}

proof fn lemma_heap_shims_0(args: Seq<Seq<char>>)
    requires
        args.len() == 4,
    ensures
        filled_from(HEAP_SHIMS@, args, 95) == ("pub fn "@ + args[0] + "() -> usize {"@) + filled_from(HEAP_SHIMS@, args, 117),
{
    lemma_heap_shims_template();
    let t = HEAP_SHIMS@;
    lemma_filled_literal(t, args, 95, "pub fn "@);
    assert(filled_from(t, args, 102) == args[0] + filled_from(t, args, 104));
    lemma_filled_literal(t, args, 104, "() -> usize {"@);
    lemma_regroup("pub fn "@, args[0], filled_from(t, args, 104));
    lemma_regroup("pub fn "@ + args[0], "() -> usize {"@, filled_from(t, args, 117));
}

proof fn lemma_heap_shims_1(args: Seq<Seq<char>>)
    requires
        args.len() == 4,
    ensures
        filled_from(HEAP_SHIMS@, args, 138) == ("::std::mem::size_of::<"@ + args[3] + ">()"@) + filled_from(HEAP_SHIMS@, args, 165),
{
    lemma_heap_shims_template();
    let t = HEAP_SHIMS@;
    lemma_filled_literal(t, args, 138, "::std::mem::size_of::<"@);
    assert(filled_from(t, args, 160) == args[3] + filled_from(t, args, 162));
    lemma_filled_literal(t, args, 162, ">()"@);
    lemma_regroup("::std::mem::size_of::<"@, args[3], filled_from(t, args, 162));
    lemma_regroup("::std::mem::size_of::<"@ + args[3], ">()"@, filled_from(t, args, 165));
}

proof fn lemma_heap_shims_2(args: Seq<Seq<char>>)
    requires
        args.len() == 4,
    ensures
        filled_from(HEAP_SHIMS@, args, 287) == ("pub fn "@ + args[1] + "() -> *mut u8 {"@) + filled_from(HEAP_SHIMS@, args, 311),
{
    lemma_heap_shims_template();
    let t = HEAP_SHIMS@;
    lemma_filled_literal(t, args, 287, "pub fn "@);
    assert(filled_from(t, args, 294) == args[1] + filled_from(t, args, 296));
    lemma_filled_literal(t, args, 296, "() -> *mut u8 {"@);
    lemma_regroup("pub fn "@, args[1], filled_from(t, args, 296));
    lemma_regroup("pub fn "@ + args[1], "() -> *mut u8 {"@, filled_from(t, args, 311));
}

proof fn lemma_heap_shims_3(args: Seq<Seq<char>>)
    requires
        args.len() == 4,
    ensures
        filled_from(HEAP_SHIMS@, args, 341) == ("::std::alloc::alloc(::std::alloc::Layout::new::<"@ + args[3] + ">())"@) + filled_from(HEAP_SHIMS@, args, 395),
{
    lemma_heap_shims_template();
    let t = HEAP_SHIMS@;
    lemma_filled_literal(t, args, 341, "::std::alloc::alloc(::std::alloc::Layout::new::<"@);
    assert(filled_from(t, args, 389) == args[3] + filled_from(t, args, 391));
    lemma_filled_literal(t, args, 391, ">())"@);
    lemma_regroup("::std::alloc::alloc(::std::alloc::Layout::new::<"@, args[3], filled_from(t, args, 391));
    lemma_regroup("::std::alloc::alloc(::std::alloc::Layout::new::<"@ + args[3], ">())"@, filled_from(t, args, 395));
}

proof fn lemma_heap_shims_4(args: Seq<Seq<char>>)
    requires
        args.len() == 4,
    ensures
        filled_from(HEAP_SHIMS@, args, 511) == ("pub fn "@ + args[2] + "(p: *mut u8) {"@) + filled_from(HEAP_SHIMS@, args, 534),
{
    lemma_heap_shims_template();
    let t = HEAP_SHIMS@;
    lemma_filled_literal(t, args, 511, "pub fn "@);
    assert(filled_from(t, args, 518) == args[2] + filled_from(t, args, 520));
    lemma_filled_literal(t, args, 520, "(p: *mut u8) {"@);
    lemma_regroup("pub fn "@, args[2], filled_from(t, args, 520));
    lemma_regroup("pub fn "@ + args[2], "(p: *mut u8) {"@, filled_from(t, args, 534));
}

proof fn lemma_heap_shims_5(args: Seq<Seq<char>>)
    requires
        args.len() == 4,
    ensures
        filled_from(HEAP_SHIMS@, args, 564) == ("::std::alloc::dealloc(p, ::std::alloc::Layout::new::<"@ + args[3] + ">())"@) + filled_from(HEAP_SHIMS@, args, 623),
{
    lemma_heap_shims_template();
    let t = HEAP_SHIMS@;
    lemma_filled_literal(t, args, 564, "::std::alloc::dealloc(p, ::std::alloc::Layout::new::<"@);
    assert(filled_from(t, args, 617) == args[3] + filled_from(t, args, 619));
    lemma_filled_literal(t, args, 619, ">())"@);
    lemma_regroup("::std::alloc::dealloc(p, ::std::alloc::Layout::new::<"@, args[3], filled_from(t, args, 619));
    lemma_regroup("::std::alloc::dealloc(p, ::std::alloc::Layout::new::<"@ + args[3], ">())"@, filled_from(t, args, 623));
}

/// What `HEAP_SHIMS` gives holds what is filled in, in its places.
pub proof fn lemma_heap_shims(args: Seq<Seq<char>>)
    requires
        args.len() == 4,
    ensures
        holds(filled(HEAP_SHIMS@, args), seq!["pub fn "@ + args[0] + "() -> usize {"@, "::std::mem::size_of::<"@ + args[3] + ">()"@, "pub fn "@ + args[1] + "() -> *mut u8 {"@, "::std::alloc::alloc(::std::alloc::Layout::new::<"@ + args[3] + ">())"@, "pub fn "@ + args[2] + "(p: *mut u8) {"@, "::std::alloc::dealloc(p, ::std::alloc::Layout::new::<"@ + args[3] + ">())"@]),
{
    lemma_heap_shims_template();
    let t = HEAP_SHIMS@;
    let parts = seq!["pub fn "@ + args[0] + "() -> usize {"@, "::std::mem::size_of::<"@ + args[3] + ">()"@, "pub fn "@ + args[1] + "() -> *mut u8 {"@, "::std::alloc::alloc(::std::alloc::Layout::new::<"@ + args[3] + ">())"@, "pub fn "@ + args[2] + "(p: *mut u8) {"@, "::std::alloc::dealloc(p, ::std::alloc::Layout::new::<"@ + args[3] + ">())"@];
    lemma_holds_nothing(filled_from(t, args, 623), parts);
    lemma_heap_shims_5(args);
    let before = lemma_filled_reaches(t, args, 534, 564);
    lemma_holds_step(filled_from(t, args, 534), before, filled_from(t, args, 623), parts, 5);
    lemma_heap_shims_4(args);
    let before = lemma_filled_reaches(t, args, 395, 511);
    lemma_holds_step(filled_from(t, args, 395), before, filled_from(t, args, 534), parts, 4);
    lemma_heap_shims_3(args);
    let before = lemma_filled_reaches(t, args, 311, 341);
    lemma_holds_step(filled_from(t, args, 311), before, filled_from(t, args, 395), parts, 3);
    lemma_heap_shims_2(args);
    let before = lemma_filled_reaches(t, args, 165, 287);
    lemma_holds_step(filled_from(t, args, 165), before, filled_from(t, args, 311), parts, 2);
    lemma_heap_shims_1(args);
    let before = lemma_filled_reaches(t, args, 117, 138);
    lemma_holds_step(filled_from(t, args, 117), before, filled_from(t, args, 165), parts, 1);
    lemma_heap_shims_0(args);
    let before = lemma_filled_reaches(t, args, 0, 95);
    lemma_holds_step(filled_from(t, args, 0), before, filled_from(t, args, 117), parts, 0);
    assert(parts.skip(0) =~= parts);
}

proof fn lemma_bridge_template()
    ensures
        occurs_at(CPP_VALUE_BRIDGE@, "pub extern \"C\" fn "@, 47),
        CPP_VALUE_BRIDGE@[65] == '$',
        CPP_VALUE_BRIDGE@[66] == '0',
        occurs_at(CPP_VALUE_BRIDGE@, "(d: *mut u8) -> *mut "@, 67),
        CPP_VALUE_BRIDGE@[88] == '$',
        CPP_VALUE_BRIDGE@[89] == '1',
        occurs_at(CPP_VALUE_BRIDGE@, " {\n    d as *mut "@, 90),
        CPP_VALUE_BRIDGE@[107] == '$',
        CPP_VALUE_BRIDGE@[108] == '1',
        !is_digit(CPP_VALUE_BRIDGE@[47]),
        "pub extern \"C\" fn "@.len() == 18,
        !"pub extern \"C\" fn "@.contains('$'),
        "(d: *mut u8) -> *mut "@.len() == 21,
        !"(d: *mut u8) -> *mut "@.contains('$'),
        " {\n    d as *mut "@.len() == 17,
        !" {\n    d as *mut "@.contains('$'),
        CPP_VALUE_BRIDGE@.len() == 111,
{
    reveal_strlit(r#"
#[allow(non_snake_case)]
#[unsafe(no_mangle)]
pub extern "C" fn $0(d: *mut u8) -> *mut $1 {
    d as *mut $1
}"#);
    reveal_strlit("pub extern \"C\" fn ");
    reveal_strlit("(d: *mut u8) -> *mut ");
    reveal_strlit(" {\n    d as *mut ");
    assert(CPP_VALUE_BRIDGE@.subrange(47, 65) =~= "pub extern \"C\" fn "@);
    assert(CPP_VALUE_BRIDGE@.subrange(67, 88) =~= "(d: *mut u8) -> *mut "@);
    assert(CPP_VALUE_BRIDGE@.subrange(90, 107) =~= " {\n    d as *mut "@);
}

proof fn lemma_bridge_0(args: Seq<Seq<char>>)
    requires
        args.len() == 2,
    ensures
        filled_from(CPP_VALUE_BRIDGE@, args, 47) == ("pub extern \"C\" fn "@ + args[0] + "(d: *mut u8) -> *mut "@ + args[1] + " {\n    d as *mut "@ + args[1]) + filled_from(CPP_VALUE_BRIDGE@, args, 109),
{
    lemma_bridge_template();
    let t = CPP_VALUE_BRIDGE@;
    lemma_filled_literal(t, args, 47, "pub extern \"C\" fn "@);
    assert(filled_from(t, args, 65) == args[0] + filled_from(t, args, 67));
    lemma_filled_literal(t, args, 67, "(d: *mut u8) -> *mut "@);
    assert(filled_from(t, args, 88) == args[1] + filled_from(t, args, 90));
    lemma_filled_literal(t, args, 90, " {\n    d as *mut "@);
    assert(filled_from(t, args, 107) == args[1] + filled_from(t, args, 109));
    lemma_regroup("pub extern \"C\" fn "@, args[0], filled_from(t, args, 67));
    lemma_regroup("pub extern \"C\" fn "@ + args[0], "(d: *mut u8) -> *mut "@, filled_from(t, args, 88));
    lemma_regroup("pub extern \"C\" fn "@ + args[0] + "(d: *mut u8) -> *mut "@, args[1], filled_from(t, args, 90));
    lemma_regroup("pub extern \"C\" fn "@ + args[0] + "(d: *mut u8) -> *mut "@ + args[1], " {\n    d as *mut "@, filled_from(t, args, 107));
    lemma_regroup("pub extern \"C\" fn "@ + args[0] + "(d: *mut u8) -> *mut "@ + args[1] + " {\n    d as *mut "@, args[1], filled_from(t, args, 109));
}

/// What `CPP_VALUE_BRIDGE` gives holds what is filled in, in its places.
pub proof fn lemma_bridge(args: Seq<Seq<char>>)
    requires
        args.len() == 2,
    ensures
        holds(filled(CPP_VALUE_BRIDGE@, args), seq!["pub extern \"C\" fn "@ + args[0] + "(d: *mut u8) -> *mut "@ + args[1] + " {\n    d as *mut "@ + args[1]]),
{
    lemma_bridge_template();
    let t = CPP_VALUE_BRIDGE@;
    let parts = seq!["pub extern \"C\" fn "@ + args[0] + "(d: *mut u8) -> *mut "@ + args[1] + " {\n    d as *mut "@ + args[1]];
    lemma_holds_nothing(filled_from(t, args, 109), parts);
    lemma_bridge_0(args);
    let before = lemma_filled_reaches(t, args, 0, 47);
    lemma_holds_step(filled_from(t, args, 0), before, filled_from(t, args, 109), parts, 0);
    assert(parts.skip(0) =~= parts);
}

proof fn lemma_stack_owned_template()
    ensures
        occurs_at(STACK_OWNED_STRUCT@, "#[repr(align("@, 12),
        STACK_OWNED_STRUCT@[25] == '$',
        STACK_OWNED_STRUCT@[26] == '0',
        occurs_at(STACK_OWNED_STRUCT@, "))]\npub struct "@, 27),
        STACK_OWNED_STRUCT@[42] == '$',
        STACK_OWNED_STRUCT@[43] == '1',
        occurs_at(STACK_OWNED_STRUCT@, " {"@, 44),
        !is_digit(STACK_OWNED_STRUCT@[12]),
        occurs_at(STACK_OWNED_STRUCT@, "core::mem::MaybeUninit<[u8; "@, 68),
        STACK_OWNED_STRUCT@[96] == '$',
        STACK_OWNED_STRUCT@[97] == '2',
        occurs_at(STACK_OWNED_STRUCT@, "]>"@, 98),
        !is_digit(STACK_OWNED_STRUCT@[68]),
        occurs_at(STACK_OWNED_STRUCT@, "fn "@, 427),
        STACK_OWNED_STRUCT@[430] == '$',
        STACK_OWNED_STRUCT@[431] == '3',
        occurs_at(STACK_OWNED_STRUCT@, "(i0: *mut u8, o: *mut u8);"@, 432),
        !is_digit(STACK_OWNED_STRUCT@[427]),
        STACK_OWNED_STRUCT@[526] == '$',
        STACK_OWNED_STRUCT@[527] == '3',
        occurs_at(STACK_OWNED_STRUCT@, "(self.buffer"@, 528),
        occurs_at(STACK_OWNED_STRUCT@, "impl Drop for "@, 637),
        STACK_OWNED_STRUCT@[651] == '$',
        STACK_OWNED_STRUCT@[652] == '1',
        occurs_at(STACK_OWNED_STRUCT@, " {"@, 653),
        !is_digit(STACK_OWNED_STRUCT@[637]),
        occurs_at(STACK_OWNED_STRUCT@, "self.destruct();"@, 751),
        !is_digit(STACK_OWNED_STRUCT@[751]),
        "#[repr(align("@.len() == 13,
        !"#[repr(align("@.contains('$'),
        "))]\npub struct "@.len() == 15,
        !"))]\npub struct "@.contains('$'),
        " {"@.len() == 2,
        !" {"@.contains('$'),
        "core::mem::MaybeUninit<[u8; "@.len() == 28,
        !"core::mem::MaybeUninit<[u8; "@.contains('$'),
        "]>"@.len() == 2,
        !"]>"@.contains('$'),
        "fn "@.len() == 3,
        !"fn "@.contains('$'),
        "(i0: *mut u8, o: *mut u8);"@.len() == 26,
        !"(i0: *mut u8, o: *mut u8);"@.contains('$'),
        "(self.buffer"@.len() == 12,
        !"(self.buffer"@.contains('$'),
        "impl Drop for "@.len() == 14,
        !"impl Drop for "@.contains('$'),
        "self.destruct();"@.len() == 16,
        !"self.destruct();"@.contains('$'),
        STACK_OWNED_STRUCT@.len() == 786,
{
    reveal_strlit(r#"
#[repr(C)]
#[repr(align($0))]
pub struct $1 {
  pub(crate) buffer: core::mem::MaybeUninit<[u8; $2]>,
  _no_auto_traits: core::marker::PhantomData<*mut ()>,
  _pinned: core::marker::PhantomPinned,
}

unsafe impl ::zngur_lib::ZngCppObject for $1 {}
unsafe impl ::zngur_lib::ZngCppStackObject for $1 {}

unsafe impl ::zngur_lib::ZngCppDestruct for $1 {
    unsafe fn destruct(&mut self) {
        unsafe extern "C" {
            fn $3(i0: *mut u8, o: *mut u8);
        }
        let mut dummy = ();
        unsafe {
            $3(self.buffer.assume_init_mut().as_mut_ptr() as *mut _, &mut dummy as *mut () as *mut u8);
        }
    }
}

impl Drop for $1 {
    fn drop(&mut self) {
        use ::zngur_lib::ZngCppDestruct;
        unsafe {
            self.destruct();
        }
    }
}
"#);
    reveal_strlit("#[repr(align(");
    reveal_strlit("))]\npub struct ");
    reveal_strlit(" {");
    reveal_strlit("core::mem::MaybeUninit<[u8; ");
    reveal_strlit("]>");
    reveal_strlit("fn ");
    reveal_strlit("(i0: *mut u8, o: *mut u8);");
    reveal_strlit("(self.buffer");
    reveal_strlit("impl Drop for ");
    reveal_strlit("self.destruct();");
    assert(STACK_OWNED_STRUCT@.subrange(12, 25) =~= "#[repr(align("@);
    assert(STACK_OWNED_STRUCT@.subrange(27, 42) =~= "))]\npub struct "@);
    assert(STACK_OWNED_STRUCT@.subrange(44, 46) =~= " {"@);
    assert(STACK_OWNED_STRUCT@.subrange(68, 96) =~= "core::mem::MaybeUninit<[u8; "@);
    assert(STACK_OWNED_STRUCT@.subrange(98, 100) =~= "]>"@);
    assert(STACK_OWNED_STRUCT@.subrange(427, 430) =~= "fn "@);
    assert(STACK_OWNED_STRUCT@.subrange(432, 458) =~= "(i0: *mut u8, o: *mut u8);"@);
    assert(STACK_OWNED_STRUCT@.subrange(528, 540) =~= "(self.buffer"@);
    assert(STACK_OWNED_STRUCT@.subrange(637, 651) =~= "impl Drop for "@);
    assert(STACK_OWNED_STRUCT@.subrange(653, 655) =~= " {"@);
    assert(STACK_OWNED_STRUCT@.subrange(751, 767) =~= "self.destruct();"@);
}

proof fn lemma_stack_owned_0(args: Seq<Seq<char>>)
    requires
        args.len() == 4,
    ensures
        filled_from(STACK_OWNED_STRUCT@, args, 12) == ("#[repr(align("@ + args[0] + "))]\npub struct "@ + args[1] + " {"@) + filled_from(STACK_OWNED_STRUCT@, args, 46),
{
    lemma_stack_owned_template();
    let t = STACK_OWNED_STRUCT@;
    lemma_filled_literal(t, args, 12, "#[repr(align("@);
    assert(filled_from(t, args, 25) == args[0] + filled_from(t, args, 27));
    lemma_filled_literal(t, args, 27, "))]\npub struct "@);
    assert(filled_from(t, args, 42) == args[1] + filled_from(t, args, 44));
    lemma_filled_literal(t, args, 44, " {"@);
    lemma_regroup("#[repr(align("@, args[0], filled_from(t, args, 27));
    lemma_regroup("#[repr(align("@ + args[0], "))]\npub struct "@, filled_from(t, args, 42));
    lemma_regroup("#[repr(align("@ + args[0] + "))]\npub struct "@, args[1], filled_from(t, args, 44));
    lemma_regroup("#[repr(align("@ + args[0] + "))]\npub struct "@ + args[1], " {"@, filled_from(t, args, 46));
}

proof fn lemma_stack_owned_1(args: Seq<Seq<char>>)
    requires
        args.len() == 4,
    ensures
        filled_from(STACK_OWNED_STRUCT@, args, 68) == ("core::mem::MaybeUninit<[u8; "@ + args[2] + "]>"@) + filled_from(STACK_OWNED_STRUCT@, args, 100),
{
    lemma_stack_owned_template();
    let t = STACK_OWNED_STRUCT@;
    lemma_filled_literal(t, args, 68, "core::mem::MaybeUninit<[u8; "@);
    assert(filled_from(t, args, 96) == args[2] + filled_from(t, args, 98));
    lemma_filled_literal(t, args, 98, "]>"@);
    lemma_regroup("core::mem::MaybeUninit<[u8; "@, args[2], filled_from(t, args, 98));
    lemma_regroup("core::mem::MaybeUninit<[u8; "@ + args[2], "]>"@, filled_from(t, args, 100));
}

proof fn lemma_stack_owned_2(args: Seq<Seq<char>>)
    requires
        args.len() == 4,
    ensures
        filled_from(STACK_OWNED_STRUCT@, args, 427) == ("fn "@ + args[3] + "(i0: *mut u8, o: *mut u8);"@) + filled_from(STACK_OWNED_STRUCT@, args, 458),
{
    lemma_stack_owned_template();
    let t = STACK_OWNED_STRUCT@;
    lemma_filled_literal(t, args, 427, "fn "@);
    assert(filled_from(t, args, 430) == args[3] + filled_from(t, args, 432));
    lemma_filled_literal(t, args, 432, "(i0: *mut u8, o: *mut u8);"@);
    lemma_regroup("fn "@, args[3], filled_from(t, args, 432));
    lemma_regroup("fn "@ + args[3], "(i0: *mut u8, o: *mut u8);"@, filled_from(t, args, 458));
}

proof fn lemma_stack_owned_3(args: Seq<Seq<char>>)
    requires
        args.len() == 4,
    ensures
        filled_from(STACK_OWNED_STRUCT@, args, 526) == (args[3] + "(self.buffer"@) + filled_from(STACK_OWNED_STRUCT@, args, 540),
{
    lemma_stack_owned_template();
    let t = STACK_OWNED_STRUCT@;
    assert(filled_from(t, args, 526) == args[3] + filled_from(t, args, 528));
    lemma_filled_literal(t, args, 528, "(self.buffer"@);
    lemma_regroup(args[3], "(self.buffer"@, filled_from(t, args, 540));
}

proof fn lemma_stack_owned_4(args: Seq<Seq<char>>)
    requires
        args.len() == 4,
    ensures
        filled_from(STACK_OWNED_STRUCT@, args, 637) == ("impl Drop for "@ + args[1] + " {"@) + filled_from(STACK_OWNED_STRUCT@, args, 655),
{
    lemma_stack_owned_template();
    let t = STACK_OWNED_STRUCT@;
    lemma_filled_literal(t, args, 637, "impl Drop for "@);
    assert(filled_from(t, args, 651) == args[1] + filled_from(t, args, 653));
    lemma_filled_literal(t, args, 653, " {"@);
    lemma_regroup("impl Drop for "@, args[1], filled_from(t, args, 653));
    lemma_regroup("impl Drop for "@ + args[1], " {"@, filled_from(t, args, 655));
}

proof fn lemma_stack_owned_5(args: Seq<Seq<char>>)
    requires
        args.len() == 4,
    ensures
        filled_from(STACK_OWNED_STRUCT@, args, 751) == ("self.destruct();"@) + filled_from(STACK_OWNED_STRUCT@, args, 767),
{
    lemma_stack_owned_template();
    let t = STACK_OWNED_STRUCT@;
    lemma_filled_literal(t, args, 751, "self.destruct();"@);
}

/// What `STACK_OWNED_STRUCT` gives holds what is filled in, in its places.
pub proof fn lemma_stack_owned(args: Seq<Seq<char>>)
    requires
        args.len() == 4,
    ensures
        holds(filled(STACK_OWNED_STRUCT@, args), seq!["#[repr(align("@ + args[0] + "))]\npub struct "@ + args[1] + " {"@, "core::mem::MaybeUninit<[u8; "@ + args[2] + "]>"@, "fn "@ + args[3] + "(i0: *mut u8, o: *mut u8);"@, args[3] + "(self.buffer"@, "impl Drop for "@ + args[1] + " {"@, "self.destruct();"@]),
{
    lemma_stack_owned_template();
    let t = STACK_OWNED_STRUCT@;
    let parts = seq!["#[repr(align("@ + args[0] + "))]\npub struct "@ + args[1] + " {"@, "core::mem::MaybeUninit<[u8; "@ + args[2] + "]>"@, "fn "@ + args[3] + "(i0: *mut u8, o: *mut u8);"@, args[3] + "(self.buffer"@, "impl Drop for "@ + args[1] + " {"@, "self.destruct();"@];
    lemma_holds_nothing(filled_from(t, args, 767), parts);
    lemma_stack_owned_5(args);
    let before = lemma_filled_reaches(t, args, 655, 751);
    lemma_holds_step(filled_from(t, args, 655), before, filled_from(t, args, 767), parts, 5);
    lemma_stack_owned_4(args);
    let before = lemma_filled_reaches(t, args, 540, 637);
    lemma_holds_step(filled_from(t, args, 540), before, filled_from(t, args, 655), parts, 4);
    lemma_stack_owned_3(args);
    let before = lemma_filled_reaches(t, args, 458, 526);
    lemma_holds_step(filled_from(t, args, 458), before, filled_from(t, args, 540), parts, 3);
    lemma_stack_owned_2(args);
    let before = lemma_filled_reaches(t, args, 100, 427);
    lemma_holds_step(filled_from(t, args, 100), before, filled_from(t, args, 458), parts, 2);
    lemma_stack_owned_1(args);
    let before = lemma_filled_reaches(t, args, 46, 68);
    lemma_holds_step(filled_from(t, args, 46), before, filled_from(t, args, 100), parts, 1);
    lemma_stack_owned_0(args);
    let before = lemma_filled_reaches(t, args, 0, 12);
    lemma_holds_step(filled_from(t, args, 0), before, filled_from(t, args, 46), parts, 0);
    assert(parts.skip(0) =~= parts);
}

proof fn lemma_cpp_value_template()
    ensures
        occurs_at(CPP_VALUE_STRUCT@, "pub struct "@, 12),
        CPP_VALUE_STRUCT@[23] == '$',
        CPP_VALUE_STRUCT@[24] == '0',
        occurs_at(CPP_VALUE_STRUCT@, " {"@, 25),
        !is_digit(CPP_VALUE_STRUCT@[12]),
        occurs_at(CPP_VALUE_STRUCT@, "impl Drop for "@, 112),
        CPP_VALUE_STRUCT@[126] == '$',
        CPP_VALUE_STRUCT@[127] == '0',
        occurs_at(CPP_VALUE_STRUCT@, " {"@, 128),
        !is_digit(CPP_VALUE_STRUCT@[112]),
        occurs_at(CPP_VALUE_STRUCT@, "(self.destructor)(self.data)"@, 164),
        !is_digit(CPP_VALUE_STRUCT@[164]),
        "pub struct "@.len() == 11,
        !"pub struct "@.contains('$'),
        " {"@.len() == 2,
        !" {"@.contains('$'),
        "impl Drop for "@.len() == 14,
        !"impl Drop for "@.contains('$'),
        "(self.destructor)(self.data)"@.len() == 28,
        !"(self.destructor)(self.data)"@.contains('$'),
        CPP_VALUE_STRUCT@.len() == 201,
{
    reveal_strlit(r#"
#[repr(C)]
pub struct $0 {
    pub(crate) data: *mut u8,
    pub(crate) destructor: extern "C" fn(*mut u8),
}

impl Drop for $0 {
    fn drop(&mut self) {
        (self.destructor)(self.data)
    }
}
"#);
    reveal_strlit("pub struct ");
    reveal_strlit(" {");
    reveal_strlit("impl Drop for ");
    reveal_strlit("(self.destructor)(self.data)");
    assert(CPP_VALUE_STRUCT@.subrange(12, 23) =~= "pub struct "@);
    assert(CPP_VALUE_STRUCT@.subrange(25, 27) =~= " {"@);
    assert(CPP_VALUE_STRUCT@.subrange(112, 126) =~= "impl Drop for "@);
    assert(CPP_VALUE_STRUCT@.subrange(128, 130) =~= " {"@);
    assert(CPP_VALUE_STRUCT@.subrange(164, 192) =~= "(self.destructor)(self.data)"@);
}

proof fn lemma_cpp_value_0(args: Seq<Seq<char>>)
    requires
        args.len() == 1,
    ensures
        filled_from(CPP_VALUE_STRUCT@, args, 12) == ("pub struct "@ + args[0] + " {"@) + filled_from(CPP_VALUE_STRUCT@, args, 27),
{
    lemma_cpp_value_template();
    let t = CPP_VALUE_STRUCT@;
    lemma_filled_literal(t, args, 12, "pub struct "@);
    assert(filled_from(t, args, 23) == args[0] + filled_from(t, args, 25));
    lemma_filled_literal(t, args, 25, " {"@);
    lemma_regroup("pub struct "@, args[0], filled_from(t, args, 25));
    lemma_regroup("pub struct "@ + args[0], " {"@, filled_from(t, args, 27));
}

proof fn lemma_cpp_value_1(args: Seq<Seq<char>>)
    requires
        args.len() == 1,
    ensures
        filled_from(CPP_VALUE_STRUCT@, args, 112) == ("impl Drop for "@ + args[0] + " {"@) + filled_from(CPP_VALUE_STRUCT@, args, 130),
{
    lemma_cpp_value_template();
    let t = CPP_VALUE_STRUCT@;
    lemma_filled_literal(t, args, 112, "impl Drop for "@);
    assert(filled_from(t, args, 126) == args[0] + filled_from(t, args, 128));
    lemma_filled_literal(t, args, 128, " {"@);
    lemma_regroup("impl Drop for "@, args[0], filled_from(t, args, 128));
    lemma_regroup("impl Drop for "@ + args[0], " {"@, filled_from(t, args, 130));
}

proof fn lemma_cpp_value_2(args: Seq<Seq<char>>)
    requires
        args.len() == 1,
    ensures
        filled_from(CPP_VALUE_STRUCT@, args, 164) == ("(self.destructor)(self.data)"@) + filled_from(CPP_VALUE_STRUCT@, args, 192),
{
    lemma_cpp_value_template();
    let t = CPP_VALUE_STRUCT@;
    lemma_filled_literal(t, args, 164, "(self.destructor)(self.data)"@);
}

/// What `CPP_VALUE_STRUCT` gives holds what is filled in, in its places.
pub proof fn lemma_cpp_value(args: Seq<Seq<char>>)
    requires
        args.len() == 1,
    ensures
        holds(filled(CPP_VALUE_STRUCT@, args), seq!["pub struct "@ + args[0] + " {"@, "impl Drop for "@ + args[0] + " {"@, "(self.destructor)(self.data)"@]),
{
    lemma_cpp_value_template();
    let t = CPP_VALUE_STRUCT@;
    let parts = seq!["pub struct "@ + args[0] + " {"@, "impl Drop for "@ + args[0] + " {"@, "(self.destructor)(self.data)"@];
    lemma_holds_nothing(filled_from(t, args, 192), parts);
    lemma_cpp_value_2(args);
    let before = lemma_filled_reaches(t, args, 130, 164);
    lemma_holds_step(filled_from(t, args, 130), before, filled_from(t, args, 192), parts, 2);
    lemma_cpp_value_1(args);
    let before = lemma_filled_reaches(t, args, 27, 112);
    lemma_holds_step(filled_from(t, args, 27), before, filled_from(t, args, 130), parts, 1);
    lemma_cpp_value_0(args);
    let before = lemma_filled_reaches(t, args, 0, 12);
    lemma_holds_step(filled_from(t, args, 0), before, filled_from(t, args, 27), parts, 0);
    assert(parts.skip(0) =~= parts);
}

proof fn lemma_cpp_ref_template()
    ensures
        occurs_at(CPP_REF_STRUCT@, "pub struct "@, 1),
        CPP_REF_STRUCT@[12] == '$',
        CPP_REF_STRUCT@[13] == '0',
        occurs_at(CPP_REF_STRUCT@, "(());"@, 14),
        !is_digit(CPP_REF_STRUCT@[1]),
        "pub struct "@.len() == 11,
        !"pub struct "@.contains('$'),
        "(());"@.len() == 5,
        !"(());"@.contains('$'),
        CPP_REF_STRUCT@.len() == 20,
{
    reveal_strlit(r#"
pub struct $0(());
"#);
    reveal_strlit("pub struct ");
    reveal_strlit("(());");
    assert(CPP_REF_STRUCT@.subrange(1, 12) =~= "pub struct "@);
    assert(CPP_REF_STRUCT@.subrange(14, 19) =~= "(());"@);
}

proof fn lemma_cpp_ref_0(args: Seq<Seq<char>>)
    requires
        args.len() == 1,
    ensures
        filled_from(CPP_REF_STRUCT@, args, 1) == ("pub struct "@ + args[0] + "(());"@) + filled_from(CPP_REF_STRUCT@, args, 19),
{
    lemma_cpp_ref_template();
    let t = CPP_REF_STRUCT@;
    lemma_filled_literal(t, args, 1, "pub struct "@);
    assert(filled_from(t, args, 12) == args[0] + filled_from(t, args, 14));
    lemma_filled_literal(t, args, 14, "(());"@);
    lemma_regroup("pub struct "@, args[0], filled_from(t, args, 14));
    lemma_regroup("pub struct "@ + args[0], "(());"@, filled_from(t, args, 19));
}

/// What `CPP_REF_STRUCT` gives holds what is filled in, in its places.
pub proof fn lemma_cpp_ref(args: Seq<Seq<char>>)
    requires
        args.len() == 1,
    ensures
        holds(filled(CPP_REF_STRUCT@, args), seq!["pub struct "@ + args[0] + "(());"@]),
{
    lemma_cpp_ref_template();
    let t = CPP_REF_STRUCT@;
    let parts = seq!["pub struct "@ + args[0] + "(());"@];
    lemma_holds_nothing(filled_from(t, args, 19), parts);
    lemma_cpp_ref_0(args);
    let before = lemma_filled_reaches(t, args, 0, 1);
    lemma_holds_step(filled_from(t, args, 0), before, filled_from(t, args, 19), parts, 0);
    assert(parts.skip(0) =~= parts);
}

proof fn lemma_cpp_alias_template()
    ensures
        occurs_at(CPP_ALIAS@, "pub type "@, 23),
        CPP_ALIAS@[32] == '$',
        CPP_ALIAS@[33] == '0',
        occurs_at(CPP_ALIAS@, " = super::"@, 34),
        CPP_ALIAS@[44] == '$',
        CPP_ALIAS@[45] == '0',
        occurs_at(CPP_ALIAS@, ";"@, 46),
        !is_digit(CPP_ALIAS@[23]),
        "pub type "@.len() == 9,
        !"pub type "@.contains('$'),
        " = super::"@.len() == 10,
        !" = super::"@.contains('$'),
        ";"@.len() == 1,
        !";"@.contains('$'),
        CPP_ALIAS@.len() == 48,
{
    reveal_strlit(r#"
    #[deprecated]
    pub type $0 = super::$0;
"#);
    reveal_strlit("pub type ");
    reveal_strlit(" = super::");
    reveal_strlit(";");
    assert(CPP_ALIAS@.subrange(23, 32) =~= "pub type "@);
    assert(CPP_ALIAS@.subrange(34, 44) =~= " = super::"@);
    assert(CPP_ALIAS@.subrange(46, 47) =~= ";"@);
}

proof fn lemma_cpp_alias_0(args: Seq<Seq<char>>)
    requires
        args.len() == 1,
    ensures
        filled_from(CPP_ALIAS@, args, 23) == ("pub type "@ + args[0] + " = super::"@ + args[0] + ";"@) + filled_from(CPP_ALIAS@, args, 47),
{
    lemma_cpp_alias_template();
    let t = CPP_ALIAS@;
    lemma_filled_literal(t, args, 23, "pub type "@);
    assert(filled_from(t, args, 32) == args[0] + filled_from(t, args, 34));
    lemma_filled_literal(t, args, 34, " = super::"@);
    assert(filled_from(t, args, 44) == args[0] + filled_from(t, args, 46));
    lemma_filled_literal(t, args, 46, ";"@);
    lemma_regroup("pub type "@, args[0], filled_from(t, args, 34));
    lemma_regroup("pub type "@ + args[0], " = super::"@, filled_from(t, args, 44));
    lemma_regroup("pub type "@ + args[0] + " = super::"@, args[0], filled_from(t, args, 46));
    lemma_regroup("pub type "@ + args[0] + " = super::"@ + args[0], ";"@, filled_from(t, args, 47));
}

/// What `CPP_ALIAS` gives holds what is filled in, in its places.
pub proof fn lemma_cpp_alias(args: Seq<Seq<char>>)
    requires
        args.len() == 1,
    ensures
        holds(filled(CPP_ALIAS@, args), seq!["pub type "@ + args[0] + " = super::"@ + args[0] + ";"@]),
{
    lemma_cpp_alias_template();
    let t = CPP_ALIAS@;
    let parts = seq!["pub type "@ + args[0] + " = super::"@ + args[0] + ";"@];
    lemma_holds_nothing(filled_from(t, args, 47), parts);
    lemma_cpp_alias_0(args);
    let before = lemma_filled_reaches(t, args, 0, 23);
    lemma_holds_step(filled_from(t, args, 0), before, filled_from(t, args, 47), parts, 0);
    assert(parts.skip(0) =~= parts);
}

proof fn lemma_cpp_module_template()
    ensures
        occurs_at(CPP_MODULE@, "pub mod cpp {\n"@, 1),
        CPP_MODULE@[15] == '$',
        CPP_MODULE@[16] == '0',
        occurs_at(CPP_MODULE@, "\n}"@, 17),
        !is_digit(CPP_MODULE@[1]),
        "pub mod cpp {\n"@.len() == 14,
        !"pub mod cpp {\n"@.contains('$'),
        "\n}"@.len() == 2,
        !"\n}"@.contains('$'),
        CPP_MODULE@.len() == 20,
{
    reveal_strlit(r#"
pub mod cpp {
$0
}
"#);
    reveal_strlit("pub mod cpp {\n");
    reveal_strlit("\n}");
    assert(CPP_MODULE@.subrange(1, 15) =~= "pub mod cpp {\n"@);
    assert(CPP_MODULE@.subrange(17, 19) =~= "\n}"@);
}

proof fn lemma_cpp_module_0(args: Seq<Seq<char>>)
    requires
        args.len() == 1,
    ensures
        filled_from(CPP_MODULE@, args, 1) == ("pub mod cpp {\n"@ + args[0] + "\n}"@) + filled_from(CPP_MODULE@, args, 19),
{
    lemma_cpp_module_template();
    let t = CPP_MODULE@;
    lemma_filled_literal(t, args, 1, "pub mod cpp {\n"@);
    assert(filled_from(t, args, 15) == args[0] + filled_from(t, args, 17));
    lemma_filled_literal(t, args, 17, "\n}"@);
    lemma_regroup("pub mod cpp {\n"@, args[0], filled_from(t, args, 17));
    lemma_regroup("pub mod cpp {\n"@ + args[0], "\n}"@, filled_from(t, args, 19));
}

/// What `CPP_MODULE` gives holds what is filled in, in its places.
pub proof fn lemma_cpp_module(args: Seq<Seq<char>>)
    requires
        args.len() == 1,
    ensures
        holds(filled(CPP_MODULE@, args), seq!["pub mod cpp {\n"@ + args[0] + "\n}"@]),
{
    lemma_cpp_module_template();
    let t = CPP_MODULE@;
    let parts = seq!["pub mod cpp {\n"@ + args[0] + "\n}"@];
    lemma_holds_nothing(filled_from(t, args, 19), parts);
    lemma_cpp_module_0(args);
    let before = lemma_filled_reaches(t, args, 0, 1);
    lemma_holds_step(filled_from(t, args, 0), before, filled_from(t, args, 19), parts, 0);
    assert(parts.skip(0) =~= parts);
}

proof fn lemma_wakers_template()
    ensures
        occurs_at(WAKER_SHIMS@, "pub extern \"C\" fn "@, 396),
        WAKER_SHIMS@[414] == '$',
        WAKER_SHIMS@[415] == '0',
        occurs_at(WAKER_SHIMS@, "(src: *mut u8, dst: *mut u8)"@, 416),
        !is_digit(WAKER_SHIMS@[396]),
        occurs_at(WAKER_SHIMS@, "let cloned = src.clone();"@, 524),
        !is_digit(WAKER_SHIMS@[524]),
        occurs_at(WAKER_SHIMS@, "pub extern \"C\" fn "@, 671),
        WAKER_SHIMS@[689] == '$',
        WAKER_SHIMS@[690] == '1',
        occurs_at(WAKER_SHIMS@, "(w: *mut u8)"@, 691),
        !is_digit(WAKER_SHIMS@[671]),
        occurs_at(WAKER_SHIMS@, "w.wake();"@, 791),
        !is_digit(WAKER_SHIMS@[791]),
        occurs_at(WAKER_SHIMS@, "pub extern \"C\" fn "@, 855),
        WAKER_SHIMS@[873] == '$',
        WAKER_SHIMS@[874] == '2',
        occurs_at(WAKER_SHIMS@, "(w: *mut u8)"@, 875),
        !is_digit(WAKER_SHIMS@[855]),
        occurs_at(WAKER_SHIMS@, "::std::ptr::drop_in_place(w as *mut ::std::task::Waker);"@, 911),
        !is_digit(WAKER_SHIMS@[911]),
        "pub extern \"C\" fn "@.len() == 18,
        !"pub extern \"C\" fn "@.contains('$'),
        "(src: *mut u8, dst: *mut u8)"@.len() == 28,
        !"(src: *mut u8, dst: *mut u8)"@.contains('$'),
        "let cloned = src.clone();"@.len() == 25,
        !"let cloned = src.clone();"@.contains('$'),
        "(w: *mut u8)"@.len() == 12,
        !"(w: *mut u8)"@.contains('$'),
        "w.wake();"@.len() == 9,
        !"w.wake();"@.contains('$'),
        "::std::ptr::drop_in_place(w as *mut ::std::task::Waker);"@.len() == 56,
        !"::std::ptr::drop_in_place(w as *mut ::std::task::Waker);"@.contains('$'),
        WAKER_SHIMS@.len() == 976,
{
    reveal_strlit(r#"
const _: () = {
    assert!(
        ::std::mem::size_of::<::std::task::Waker>() <= 64,
        "zngur: std::task::Waker does not fit in the C++ coroutine waker slot"
    );
    assert!(
        ::std::mem::align_of::<::std::task::Waker>() <= 16,
        "zngur: std::task::Waker alignment exceeds the C++ coroutine waker slot alignment"
    );
};

#[allow(non_snake_case)]
#[unsafe(no_mangle)]
pub extern "C" fn $0(src: *mut u8, dst: *mut u8) {
    unsafe {
        let src = &*(src as *const ::std::task::Waker);
        let cloned = src.clone();
        ::std::ptr::write(dst as *mut ::std::task::Waker, cloned);
    }
}
#[allow(non_snake_case)]
#[unsafe(no_mangle)]
pub extern "C" fn $1(w: *mut u8) {
    unsafe {
        let w = ::std::ptr::read(w as *mut ::std::task::Waker);
        w.wake();
    }
}
#[allow(non_snake_case)]
#[unsafe(no_mangle)]
pub extern "C" fn $2(w: *mut u8) {
    unsafe {
        ::std::ptr::drop_in_place(w as *mut ::std::task::Waker);
    }
}
"#);
    reveal_strlit("pub extern \"C\" fn ");
    reveal_strlit("(src: *mut u8, dst: *mut u8)");
    reveal_strlit("let cloned = src.clone();");
    reveal_strlit("(w: *mut u8)");
    reveal_strlit("w.wake();");
    reveal_strlit("::std::ptr::drop_in_place(w as *mut ::std::task::Waker);");
    assert(WAKER_SHIMS@.subrange(396, 414) =~= "pub extern \"C\" fn "@);
    assert(WAKER_SHIMS@.subrange(416, 444) =~= "(src: *mut u8, dst: *mut u8)"@);
    assert(WAKER_SHIMS@.subrange(524, 549) =~= "let cloned = src.clone();"@);
    assert(WAKER_SHIMS@.subrange(671, 689) =~= "pub extern \"C\" fn "@);
    assert(WAKER_SHIMS@.subrange(691, 703) =~= "(w: *mut u8)"@);
    assert(WAKER_SHIMS@.subrange(791, 800) =~= "w.wake();"@);
    assert(WAKER_SHIMS@.subrange(855, 873) =~= "pub extern \"C\" fn "@);
    assert(WAKER_SHIMS@.subrange(875, 887) =~= "(w: *mut u8)"@);
    assert(WAKER_SHIMS@.subrange(911, 967) =~= "::std::ptr::drop_in_place(w as *mut ::std::task::Waker);"@);
}

proof fn lemma_wakers_0(args: Seq<Seq<char>>)
    requires
        args.len() == 3,
    ensures
        filled_from(WAKER_SHIMS@, args, 396) == ("pub extern \"C\" fn "@ + args[0] + "(src: *mut u8, dst: *mut u8)"@) + filled_from(WAKER_SHIMS@, args, 444),
{
    lemma_wakers_template();
    let t = WAKER_SHIMS@;
    lemma_filled_literal(t, args, 396, "pub extern \"C\" fn "@);
    assert(filled_from(t, args, 414) == args[0] + filled_from(t, args, 416));
    lemma_filled_literal(t, args, 416, "(src: *mut u8, dst: *mut u8)"@);
    lemma_regroup("pub extern \"C\" fn "@, args[0], filled_from(t, args, 416));
    lemma_regroup("pub extern \"C\" fn "@ + args[0], "(src: *mut u8, dst: *mut u8)"@, filled_from(t, args, 444));
}

proof fn lemma_wakers_1(args: Seq<Seq<char>>)
    requires
        args.len() == 3,
    ensures
        filled_from(WAKER_SHIMS@, args, 524) == ("let cloned = src.clone();"@) + filled_from(WAKER_SHIMS@, args, 549),
{
    lemma_wakers_template();
    let t = WAKER_SHIMS@;
    lemma_filled_literal(t, args, 524, "let cloned = src.clone();"@);
}

proof fn lemma_wakers_2(args: Seq<Seq<char>>)
    requires
        args.len() == 3,
    ensures
        filled_from(WAKER_SHIMS@, args, 671) == ("pub extern \"C\" fn "@ + args[1] + "(w: *mut u8)"@) + filled_from(WAKER_SHIMS@, args, 703),
{
    lemma_wakers_template();
    let t = WAKER_SHIMS@;
    lemma_filled_literal(t, args, 671, "pub extern \"C\" fn "@);
    assert(filled_from(t, args, 689) == args[1] + filled_from(t, args, 691));
    lemma_filled_literal(t, args, 691, "(w: *mut u8)"@);
    lemma_regroup("pub extern \"C\" fn "@, args[1], filled_from(t, args, 691));
    lemma_regroup("pub extern \"C\" fn "@ + args[1], "(w: *mut u8)"@, filled_from(t, args, 703));
}

proof fn lemma_wakers_3(args: Seq<Seq<char>>)
    requires
        args.len() == 3,
    ensures
        filled_from(WAKER_SHIMS@, args, 791) == ("w.wake();"@) + filled_from(WAKER_SHIMS@, args, 800),
{
    lemma_wakers_template();
    let t = WAKER_SHIMS@;
    lemma_filled_literal(t, args, 791, "w.wake();"@);
}

proof fn lemma_wakers_4(args: Seq<Seq<char>>)
    requires
        args.len() == 3,
    ensures
        filled_from(WAKER_SHIMS@, args, 855) == ("pub extern \"C\" fn "@ + args[2] + "(w: *mut u8)"@) + filled_from(WAKER_SHIMS@, args, 887),
{
    lemma_wakers_template();
    let t = WAKER_SHIMS@;
    lemma_filled_literal(t, args, 855, "pub extern \"C\" fn "@);
    assert(filled_from(t, args, 873) == args[2] + filled_from(t, args, 875));
    lemma_filled_literal(t, args, 875, "(w: *mut u8)"@);
    lemma_regroup("pub extern \"C\" fn "@, args[2], filled_from(t, args, 875));
    lemma_regroup("pub extern \"C\" fn "@ + args[2], "(w: *mut u8)"@, filled_from(t, args, 887));
}

proof fn lemma_wakers_5(args: Seq<Seq<char>>)
    requires
        args.len() == 3,
    ensures
        filled_from(WAKER_SHIMS@, args, 911) == ("::std::ptr::drop_in_place(w as *mut ::std::task::Waker);"@) + filled_from(WAKER_SHIMS@, args, 967),
{
    lemma_wakers_template();
    let t = WAKER_SHIMS@;
    lemma_filled_literal(t, args, 911, "::std::ptr::drop_in_place(w as *mut ::std::task::Waker);"@);
}

/// What `WAKER_SHIMS` gives holds what is filled in, in its places.
pub proof fn lemma_wakers(args: Seq<Seq<char>>)
    requires
        args.len() == 3,
    ensures
        holds(filled(WAKER_SHIMS@, args), seq!["pub extern \"C\" fn "@ + args[0] + "(src: *mut u8, dst: *mut u8)"@, "let cloned = src.clone();"@, "pub extern \"C\" fn "@ + args[1] + "(w: *mut u8)"@, "w.wake();"@, "pub extern \"C\" fn "@ + args[2] + "(w: *mut u8)"@, "::std::ptr::drop_in_place(w as *mut ::std::task::Waker);"@]),
{
    lemma_wakers_template();
    let t = WAKER_SHIMS@;
    let parts = seq!["pub extern \"C\" fn "@ + args[0] + "(src: *mut u8, dst: *mut u8)"@, "let cloned = src.clone();"@, "pub extern \"C\" fn "@ + args[1] + "(w: *mut u8)"@, "w.wake();"@, "pub extern \"C\" fn "@ + args[2] + "(w: *mut u8)"@, "::std::ptr::drop_in_place(w as *mut ::std::task::Waker);"@];
    lemma_holds_nothing(filled_from(t, args, 967), parts);
    lemma_wakers_5(args);
    let before = lemma_filled_reaches(t, args, 887, 911);
    lemma_holds_step(filled_from(t, args, 887), before, filled_from(t, args, 967), parts, 5);
    lemma_wakers_4(args);
    let before = lemma_filled_reaches(t, args, 800, 855);
    lemma_holds_step(filled_from(t, args, 800), before, filled_from(t, args, 887), parts, 4);
    lemma_wakers_3(args);
    let before = lemma_filled_reaches(t, args, 703, 791);
    lemma_holds_step(filled_from(t, args, 703), before, filled_from(t, args, 800), parts, 3);
    lemma_wakers_2(args);
    let before = lemma_filled_reaches(t, args, 549, 671);
    lemma_holds_step(filled_from(t, args, 549), before, filled_from(t, args, 703), parts, 2);
    lemma_wakers_1(args);
    let before = lemma_filled_reaches(t, args, 444, 524);
    lemma_holds_step(filled_from(t, args, 444), before, filled_from(t, args, 549), parts, 1);
    lemma_wakers_0(args);
    let before = lemma_filled_reaches(t, args, 0, 396);
    lemma_holds_step(filled_from(t, args, 0), before, filled_from(t, args, 444), parts, 0);
    assert(parts.skip(0) =~= parts);
}

proof fn lemma_future_open_template()
    ensures
        occurs_at(FUTURE_SHIM_OPEN@, "pub extern \"C\" fn "@, 47),
        FUTURE_SHIM_OPEN@[65] == '$',
        FUTURE_SHIM_OPEN@[66] == '0',
        occurs_at(FUTURE_SHIM_OPEN@, "(fut: *mut u8, waker: *mut u8, out: *mut u8) -> u8"@, 67),
        !is_digit(FUTURE_SHIM_OPEN@[47]),
        occurs_at(FUTURE_SHIM_OPEN@, "::std::boxed::Box<dyn ::std::future::Future<Output = "@, 170),
        FUTURE_SHIM_OPEN@[223] == '$',
        FUTURE_SHIM_OPEN@[224] == '1',
        occurs_at(FUTURE_SHIM_OPEN@, ">"@, 225),
        FUTURE_SHIM_OPEN@[226] == '$',
        FUTURE_SHIM_OPEN@[227] == '2',
        occurs_at(FUTURE_SHIM_OPEN@, ">);"@, 228),
        !is_digit(FUTURE_SHIM_OPEN@[170]),
        occurs_at(FUTURE_SHIM_OPEN@, "::std::ptr::write(out as *mut "@, 490),
        FUTURE_SHIM_OPEN@[520] == '$',
        FUTURE_SHIM_OPEN@[521] == '1',
        occurs_at(FUTURE_SHIM_OPEN@, ", v);\n                1"@, 522),
        !is_digit(FUTURE_SHIM_OPEN@[490]),
        occurs_at(FUTURE_SHIM_OPEN@, "fn "@, 648),
        FUTURE_SHIM_OPEN@[651] == '$',
        FUTURE_SHIM_OPEN@[652] == '3',
        occurs_at(FUTURE_SHIM_OPEN@, "(handle: *mut u8, waker: *mut u8, out: *mut u8) -> u8;\n    fn "@, 653),
        FUTURE_SHIM_OPEN@[715] == '$',
        FUTURE_SHIM_OPEN@[716] == '4',
        occurs_at(FUTURE_SHIM_OPEN@, "(handle: *mut u8);"@, 717),
        !is_digit(FUTURE_SHIM_OPEN@[648]),
        occurs_at(FUTURE_SHIM_OPEN@, "pub extern \"C\" fn "@, 785),
        FUTURE_SHIM_OPEN@[803] == '$',
        FUTURE_SHIM_OPEN@[804] == '5',
        occurs_at(FUTURE_SHIM_OPEN@, "(handle: *mut u8, out: *mut u8)"@, 805),
        !is_digit(FUTURE_SHIM_OPEN@[785]),
        occurs_at(FUTURE_SHIM_OPEN@, "type Output = "@, 948),
        FUTURE_SHIM_OPEN@[962] == '$',
        FUTURE_SHIM_OPEN@[963] == '1',
        occurs_at(FUTURE_SHIM_OPEN@, ";"@, 964),
        !is_digit(FUTURE_SHIM_OPEN@[948]),
        occurs_at(FUTURE_SHIM_OPEN@, "unsafe { "@, 1307),
        FUTURE_SHIM_OPEN@[1316] == '$',
        FUTURE_SHIM_OPEN@[1317] == '3',
        occurs_at(FUTURE_SHIM_OPEN@, "(self.handle, waker_ptr"@, 1318),
        !is_digit(FUTURE_SHIM_OPEN@[1307]),
        occurs_at(FUTURE_SHIM_OPEN@, "unsafe { "@, 1650),
        FUTURE_SHIM_OPEN@[1659] == '$',
        FUTURE_SHIM_OPEN@[1660] == '4',
        occurs_at(FUTURE_SHIM_OPEN@, "(self.handle) }"@, 1661),
        !is_digit(FUTURE_SHIM_OPEN@[1650]),
        "pub extern \"C\" fn "@.len() == 18,
        !"pub extern \"C\" fn "@.contains('$'),
        "(fut: *mut u8, waker: *mut u8, out: *mut u8) -> u8"@.len() == 50,
        !"(fut: *mut u8, waker: *mut u8, out: *mut u8) -> u8"@.contains('$'),
        "::std::boxed::Box<dyn ::std::future::Future<Output = "@.len() == 53,
        !"::std::boxed::Box<dyn ::std::future::Future<Output = "@.contains('$'),
        ">"@.len() == 1,
        !">"@.contains('$'),
        ">);"@.len() == 3,
        !">);"@.contains('$'),
        "::std::ptr::write(out as *mut "@.len() == 30,
        !"::std::ptr::write(out as *mut "@.contains('$'),
        ", v);\n                1"@.len() == 23,
        !", v);\n                1"@.contains('$'),
        "fn "@.len() == 3,
        !"fn "@.contains('$'),
        "(handle: *mut u8, waker: *mut u8, out: *mut u8) -> u8;\n    fn "@.len() == 62,
        !"(handle: *mut u8, waker: *mut u8, out: *mut u8) -> u8;\n    fn "@.contains('$'),
        "(handle: *mut u8);"@.len() == 18,
        !"(handle: *mut u8);"@.contains('$'),
        "(handle: *mut u8, out: *mut u8)"@.len() == 31,
        !"(handle: *mut u8, out: *mut u8)"@.contains('$'),
        "type Output = "@.len() == 14,
        !"type Output = "@.contains('$'),
        ";"@.len() == 1,
        !";"@.contains('$'),
        "unsafe { "@.len() == 9,
        !"unsafe { "@.contains('$'),
        "(self.handle, waker_ptr"@.len() == 23,
        !"(self.handle, waker_ptr"@.contains('$'),
        "(self.handle) }"@.len() == 15,
        !"(self.handle) }"@.contains('$'),
        FUTURE_SHIM_OPEN@.len() == 1693,
{
    reveal_strlit(r#"
#[allow(non_snake_case)]
#[unsafe(no_mangle)]
pub extern "C" fn $0(fut: *mut u8, waker: *mut u8, out: *mut u8) -> u8 {
    unsafe {
        let fut = &mut *(fut as *mut ::std::boxed::Box<dyn ::std::future::Future<Output = $1>$2>);
        let waker = &*(waker as *const ::std::task::Waker);
        let mut cx = ::std::task::Context::from_waker(waker);
        match ::std::pin::Pin::new_unchecked(fut.as_mut()).poll(&mut cx) {
            ::std::task::Poll::Ready(v) => {
                ::std::ptr::write(out as *mut $1, v);
                1
            }
            ::std::task::Poll::Pending => 0,
        }
    }
}

unsafe extern "C" {
    fn $3(handle: *mut u8, waker: *mut u8, out: *mut u8) -> u8;
    fn $4(handle: *mut u8);
}

#[allow(non_snake_case)]
#[unsafe(no_mangle)]
pub extern "C" fn $5(handle: *mut u8, out: *mut u8) {
    struct CoroState {
        handle: *mut u8,
    }
    impl ::std::future::Future for CoroState {
        type Output = $1;
        fn poll(
            self: ::std::pin::Pin<&mut Self>,
            cx: &mut ::std::task::Context<'_>,
        ) -> ::std::task::Poll<$1> {
            let mut out_val = ::std::mem::MaybeUninit::<$1>::uninit();
            let waker_ptr = cx.waker() as *const ::std::task::Waker as *mut u8;
            let is_ready =
                unsafe { $3(self.handle, waker_ptr, out_val.as_mut_ptr() as *mut u8) };
            if is_ready != 0 {
                ::std::task::Poll::Ready(unsafe { out_val.assume_init() })
            } else {
                ::std::task::Poll::Pending
            }
        }
    }
    impl Drop for CoroState {
        fn drop(&mut self) {
            unsafe { $4(self.handle) }
        }
    }
"#);
    reveal_strlit("pub extern \"C\" fn ");
    reveal_strlit("(fut: *mut u8, waker: *mut u8, out: *mut u8) -> u8");
    reveal_strlit("::std::boxed::Box<dyn ::std::future::Future<Output = ");
    reveal_strlit(">");
    reveal_strlit(">);");
    reveal_strlit("::std::ptr::write(out as *mut ");
    reveal_strlit(", v);\n                1");
    reveal_strlit("fn ");
    reveal_strlit("(handle: *mut u8, waker: *mut u8, out: *mut u8) -> u8;\n    fn ");
    reveal_strlit("(handle: *mut u8);");
    reveal_strlit("(handle: *mut u8, out: *mut u8)");
    reveal_strlit("type Output = ");
    reveal_strlit(";");
    reveal_strlit("unsafe { ");
    reveal_strlit("(self.handle, waker_ptr");
    reveal_strlit("(self.handle) }");
    assert(FUTURE_SHIM_OPEN@.subrange(47, 65) =~= "pub extern \"C\" fn "@);
    assert(FUTURE_SHIM_OPEN@.subrange(67, 117) =~= "(fut: *mut u8, waker: *mut u8, out: *mut u8) -> u8"@);
    assert(FUTURE_SHIM_OPEN@.subrange(170, 223) =~= "::std::boxed::Box<dyn ::std::future::Future<Output = "@);
    assert(FUTURE_SHIM_OPEN@.subrange(225, 226) =~= ">"@);
    assert(FUTURE_SHIM_OPEN@.subrange(228, 231) =~= ">);"@);
    assert(FUTURE_SHIM_OPEN@.subrange(490, 520) =~= "::std::ptr::write(out as *mut "@);
    assert(FUTURE_SHIM_OPEN@.subrange(522, 545) =~= ", v);\n                1"@);
    assert(FUTURE_SHIM_OPEN@.subrange(648, 651) =~= "fn "@);
    assert(FUTURE_SHIM_OPEN@.subrange(653, 715) =~= "(handle: *mut u8, waker: *mut u8, out: *mut u8) -> u8;\n    fn "@);
    assert(FUTURE_SHIM_OPEN@.subrange(717, 735) =~= "(handle: *mut u8);"@);
    assert(FUTURE_SHIM_OPEN@.subrange(785, 803) =~= "pub extern \"C\" fn "@);
    assert(FUTURE_SHIM_OPEN@.subrange(805, 836) =~= "(handle: *mut u8, out: *mut u8)"@);
    assert(FUTURE_SHIM_OPEN@.subrange(948, 962) =~= "type Output = "@);
    assert(FUTURE_SHIM_OPEN@.subrange(964, 965) =~= ";"@);
    assert(FUTURE_SHIM_OPEN@.subrange(1307, 1316) =~= "unsafe { "@);
    assert(FUTURE_SHIM_OPEN@.subrange(1318, 1341) =~= "(self.handle, waker_ptr"@);
    assert(FUTURE_SHIM_OPEN@.subrange(1650, 1659) =~= "unsafe { "@);
    assert(FUTURE_SHIM_OPEN@.subrange(1661, 1676) =~= "(self.handle) }"@);
}

proof fn lemma_future_open_0(args: Seq<Seq<char>>)
    requires
        args.len() == 6,
    ensures
        filled_from(FUTURE_SHIM_OPEN@, args, 47) == ("pub extern \"C\" fn "@ + args[0] + "(fut: *mut u8, waker: *mut u8, out: *mut u8) -> u8"@) + filled_from(FUTURE_SHIM_OPEN@, args, 117),
{
    lemma_future_open_template();
    let t = FUTURE_SHIM_OPEN@;
    lemma_filled_literal(t, args, 47, "pub extern \"C\" fn "@);
    assert(filled_from(t, args, 65) == args[0] + filled_from(t, args, 67));
    lemma_filled_literal(t, args, 67, "(fut: *mut u8, waker: *mut u8, out: *mut u8) -> u8"@);
    lemma_regroup("pub extern \"C\" fn "@, args[0], filled_from(t, args, 67));
    lemma_regroup("pub extern \"C\" fn "@ + args[0], "(fut: *mut u8, waker: *mut u8, out: *mut u8) -> u8"@, filled_from(t, args, 117));
}

proof fn lemma_future_open_1(args: Seq<Seq<char>>)
    requires
        args.len() == 6,
    ensures
        filled_from(FUTURE_SHIM_OPEN@, args, 170) == ("::std::boxed::Box<dyn ::std::future::Future<Output = "@ + args[1] + ">"@ + args[2] + ">);"@) + filled_from(FUTURE_SHIM_OPEN@, args, 231),
{
    lemma_future_open_template();
    let t = FUTURE_SHIM_OPEN@;
    lemma_filled_literal(t, args, 170, "::std::boxed::Box<dyn ::std::future::Future<Output = "@);
    assert(filled_from(t, args, 223) == args[1] + filled_from(t, args, 225));
    lemma_filled_literal(t, args, 225, ">"@);
    assert(filled_from(t, args, 226) == args[2] + filled_from(t, args, 228));
    lemma_filled_literal(t, args, 228, ">);"@);
    lemma_regroup("::std::boxed::Box<dyn ::std::future::Future<Output = "@, args[1], filled_from(t, args, 225));
    lemma_regroup("::std::boxed::Box<dyn ::std::future::Future<Output = "@ + args[1], ">"@, filled_from(t, args, 226));
    lemma_regroup("::std::boxed::Box<dyn ::std::future::Future<Output = "@ + args[1] + ">"@, args[2], filled_from(t, args, 228));
    lemma_regroup("::std::boxed::Box<dyn ::std::future::Future<Output = "@ + args[1] + ">"@ + args[2], ">);"@, filled_from(t, args, 231));
}

proof fn lemma_future_open_2(args: Seq<Seq<char>>)
    requires
        args.len() == 6,
    ensures
        filled_from(FUTURE_SHIM_OPEN@, args, 490) == ("::std::ptr::write(out as *mut "@ + args[1] + ", v);\n                1"@) + filled_from(FUTURE_SHIM_OPEN@, args, 545),
{
    lemma_future_open_template();
    let t = FUTURE_SHIM_OPEN@;
    lemma_filled_literal(t, args, 490, "::std::ptr::write(out as *mut "@);
    assert(filled_from(t, args, 520) == args[1] + filled_from(t, args, 522));
    lemma_filled_literal(t, args, 522, ", v);\n                1"@);
    lemma_regroup("::std::ptr::write(out as *mut "@, args[1], filled_from(t, args, 522));
    lemma_regroup("::std::ptr::write(out as *mut "@ + args[1], ", v);\n                1"@, filled_from(t, args, 545));
}

proof fn lemma_future_open_3(args: Seq<Seq<char>>)
    requires
        args.len() == 6,
    ensures
        filled_from(FUTURE_SHIM_OPEN@, args, 648) == ("fn "@ + args[3] + "(handle: *mut u8, waker: *mut u8, out: *mut u8) -> u8;\n    fn "@ + args[4] + "(handle: *mut u8);"@) + filled_from(FUTURE_SHIM_OPEN@, args, 735),
{
    lemma_future_open_template();
    let t = FUTURE_SHIM_OPEN@;
    lemma_filled_literal(t, args, 648, "fn "@);
    assert(filled_from(t, args, 651) == args[3] + filled_from(t, args, 653));
    lemma_filled_literal(t, args, 653, "(handle: *mut u8, waker: *mut u8, out: *mut u8) -> u8;\n    fn "@);
    assert(filled_from(t, args, 715) == args[4] + filled_from(t, args, 717));
    lemma_filled_literal(t, args, 717, "(handle: *mut u8);"@);
    lemma_regroup("fn "@, args[3], filled_from(t, args, 653));
    lemma_regroup("fn "@ + args[3], "(handle: *mut u8, waker: *mut u8, out: *mut u8) -> u8;\n    fn "@, filled_from(t, args, 715));
    lemma_regroup("fn "@ + args[3] + "(handle: *mut u8, waker: *mut u8, out: *mut u8) -> u8;\n    fn "@, args[4], filled_from(t, args, 717));
    lemma_regroup("fn "@ + args[3] + "(handle: *mut u8, waker: *mut u8, out: *mut u8) -> u8;\n    fn "@ + args[4], "(handle: *mut u8);"@, filled_from(t, args, 735));
}

proof fn lemma_future_open_4(args: Seq<Seq<char>>)
    requires
        args.len() == 6,
    ensures
        filled_from(FUTURE_SHIM_OPEN@, args, 785) == ("pub extern \"C\" fn "@ + args[5] + "(handle: *mut u8, out: *mut u8)"@) + filled_from(FUTURE_SHIM_OPEN@, args, 836),
{
    lemma_future_open_template();
    let t = FUTURE_SHIM_OPEN@;
    lemma_filled_literal(t, args, 785, "pub extern \"C\" fn "@);
    assert(filled_from(t, args, 803) == args[5] + filled_from(t, args, 805));
    lemma_filled_literal(t, args, 805, "(handle: *mut u8, out: *mut u8)"@);
    lemma_regroup("pub extern \"C\" fn "@, args[5], filled_from(t, args, 805));
    lemma_regroup("pub extern \"C\" fn "@ + args[5], "(handle: *mut u8, out: *mut u8)"@, filled_from(t, args, 836));
}

proof fn lemma_future_open_5(args: Seq<Seq<char>>)
    requires
        args.len() == 6,
    ensures
        filled_from(FUTURE_SHIM_OPEN@, args, 948) == ("type Output = "@ + args[1] + ";"@) + filled_from(FUTURE_SHIM_OPEN@, args, 965),
{
    lemma_future_open_template();
    let t = FUTURE_SHIM_OPEN@;
    lemma_filled_literal(t, args, 948, "type Output = "@);
    assert(filled_from(t, args, 962) == args[1] + filled_from(t, args, 964));
    lemma_filled_literal(t, args, 964, ";"@);
    lemma_regroup("type Output = "@, args[1], filled_from(t, args, 964));
    lemma_regroup("type Output = "@ + args[1], ";"@, filled_from(t, args, 965));
}

proof fn lemma_future_open_6(args: Seq<Seq<char>>)
    requires
        args.len() == 6,
    ensures
        filled_from(FUTURE_SHIM_OPEN@, args, 1307) == ("unsafe { "@ + args[3] + "(self.handle, waker_ptr"@) + filled_from(FUTURE_SHIM_OPEN@, args, 1341),
{
    lemma_future_open_template();
    let t = FUTURE_SHIM_OPEN@;
    lemma_filled_literal(t, args, 1307, "unsafe { "@);
    assert(filled_from(t, args, 1316) == args[3] + filled_from(t, args, 1318));
    lemma_filled_literal(t, args, 1318, "(self.handle, waker_ptr"@);
    lemma_regroup("unsafe { "@, args[3], filled_from(t, args, 1318));
    lemma_regroup("unsafe { "@ + args[3], "(self.handle, waker_ptr"@, filled_from(t, args, 1341));
}

proof fn lemma_future_open_7(args: Seq<Seq<char>>)
    requires
        args.len() == 6,
    ensures
        filled_from(FUTURE_SHIM_OPEN@, args, 1650) == ("unsafe { "@ + args[4] + "(self.handle) }"@) + filled_from(FUTURE_SHIM_OPEN@, args, 1676),
{
    lemma_future_open_template();
    let t = FUTURE_SHIM_OPEN@;
    lemma_filled_literal(t, args, 1650, "unsafe { "@);
    assert(filled_from(t, args, 1659) == args[4] + filled_from(t, args, 1661));
    lemma_filled_literal(t, args, 1661, "(self.handle) }"@);
    lemma_regroup("unsafe { "@, args[4], filled_from(t, args, 1661));
    lemma_regroup("unsafe { "@ + args[4], "(self.handle) }"@, filled_from(t, args, 1676));
}

/// What `FUTURE_SHIM_OPEN` gives holds what is filled in, in its places.
pub proof fn lemma_future_open(args: Seq<Seq<char>>)
    requires
        args.len() == 6,
    ensures
        holds(filled(FUTURE_SHIM_OPEN@, args), seq!["pub extern \"C\" fn "@ + args[0] + "(fut: *mut u8, waker: *mut u8, out: *mut u8) -> u8"@, "::std::boxed::Box<dyn ::std::future::Future<Output = "@ + args[1] + ">"@ + args[2] + ">);"@, "::std::ptr::write(out as *mut "@ + args[1] + ", v);\n                1"@, "fn "@ + args[3] + "(handle: *mut u8, waker: *mut u8, out: *mut u8) -> u8;\n    fn "@ + args[4] + "(handle: *mut u8);"@, "pub extern \"C\" fn "@ + args[5] + "(handle: *mut u8, out: *mut u8)"@, "type Output = "@ + args[1] + ";"@, "unsafe { "@ + args[3] + "(self.handle, waker_ptr"@, "unsafe { "@ + args[4] + "(self.handle) }"@]),
{
    lemma_future_open_template();
    let t = FUTURE_SHIM_OPEN@;
    let parts = seq!["pub extern \"C\" fn "@ + args[0] + "(fut: *mut u8, waker: *mut u8, out: *mut u8) -> u8"@, "::std::boxed::Box<dyn ::std::future::Future<Output = "@ + args[1] + ">"@ + args[2] + ">);"@, "::std::ptr::write(out as *mut "@ + args[1] + ", v);\n                1"@, "fn "@ + args[3] + "(handle: *mut u8, waker: *mut u8, out: *mut u8) -> u8;\n    fn "@ + args[4] + "(handle: *mut u8);"@, "pub extern \"C\" fn "@ + args[5] + "(handle: *mut u8, out: *mut u8)"@, "type Output = "@ + args[1] + ";"@, "unsafe { "@ + args[3] + "(self.handle, waker_ptr"@, "unsafe { "@ + args[4] + "(self.handle) }"@];
    lemma_holds_nothing(filled_from(t, args, 1676), parts);
    lemma_future_open_7(args);
    let before = lemma_filled_reaches(t, args, 1341, 1650);
    lemma_holds_step(filled_from(t, args, 1341), before, filled_from(t, args, 1676), parts, 7);
    lemma_future_open_6(args);
    let before = lemma_filled_reaches(t, args, 965, 1307);
    lemma_holds_step(filled_from(t, args, 965), before, filled_from(t, args, 1341), parts, 6);
    lemma_future_open_5(args);
    let before = lemma_filled_reaches(t, args, 836, 948);
    lemma_holds_step(filled_from(t, args, 836), before, filled_from(t, args, 965), parts, 5);
    lemma_future_open_4(args);
    let before = lemma_filled_reaches(t, args, 735, 785);
    lemma_holds_step(filled_from(t, args, 735), before, filled_from(t, args, 836), parts, 4);
    lemma_future_open_3(args);
    let before = lemma_filled_reaches(t, args, 545, 648);
    lemma_holds_step(filled_from(t, args, 545), before, filled_from(t, args, 735), parts, 3);
    lemma_future_open_2(args);
    let before = lemma_filled_reaches(t, args, 231, 490);
    lemma_holds_step(filled_from(t, args, 231), before, filled_from(t, args, 545), parts, 2);
    lemma_future_open_1(args);
    let before = lemma_filled_reaches(t, args, 117, 170);
    lemma_holds_step(filled_from(t, args, 117), before, filled_from(t, args, 231), parts, 1);
    lemma_future_open_0(args);
    let before = lemma_filled_reaches(t, args, 0, 47);
    lemma_holds_step(filled_from(t, args, 0), before, filled_from(t, args, 117), parts, 0);
    assert(parts.skip(0) =~= parts);
}

proof fn lemma_future_close_template()
    ensures
        occurs_at(FUTURE_SHIM_CLOSE@, "let state = CoroState { handle };"@, 4),
        !is_digit(FUTURE_SHIM_CLOSE@[4]),
        occurs_at(FUTURE_SHIM_CLOSE@, "::std::boxed::Box<dyn ::std::future::Future<Output = "@, 53),
        FUTURE_SHIM_CLOSE@[106] == '$',
        FUTURE_SHIM_CLOSE@[107] == '0',
        occurs_at(FUTURE_SHIM_CLOSE@, ">"@, 108),
        FUTURE_SHIM_CLOSE@[109] == '$',
        FUTURE_SHIM_CLOSE@[110] == '1',
        occurs_at(FUTURE_SHIM_CLOSE@, "> =\n        ::std::boxed::Box::new(state);"@, 111),
        !is_digit(FUTURE_SHIM_CLOSE@[53]),
        "let state = CoroState { handle };"@.len() == 33,
        !"let state = CoroState { handle };"@.contains('$'),
        "::std::boxed::Box<dyn ::std::future::Future<Output = "@.len() == 53,
        !"::std::boxed::Box<dyn ::std::future::Future<Output = "@.contains('$'),
        ">"@.len() == 1,
        !">"@.contains('$'),
        "> =\n        ::std::boxed::Box::new(state);"@.len() == 42,
        !"> =\n        ::std::boxed::Box::new(state);"@.contains('$'),
        FUTURE_SHIM_CLOSE@.len() == 316,
{
    reveal_strlit(r#"    let state = CoroState { handle };
    let boxed: ::std::boxed::Box<dyn ::std::future::Future<Output = $0>$1> =
        ::std::boxed::Box::new(state);
    unsafe {
        ::std::ptr::write(
            out as *mut ::std::boxed::Box<dyn ::std::future::Future<Output = $0>$1>,
            boxed,
        )
    }
}
"#);
    reveal_strlit("let state = CoroState { handle };");
    reveal_strlit("::std::boxed::Box<dyn ::std::future::Future<Output = ");
    reveal_strlit(">");
    reveal_strlit("> =\n        ::std::boxed::Box::new(state);");
    assert(FUTURE_SHIM_CLOSE@.subrange(4, 37) =~= "let state = CoroState { handle };"@);
    assert(FUTURE_SHIM_CLOSE@.subrange(53, 106) =~= "::std::boxed::Box<dyn ::std::future::Future<Output = "@);
    assert(FUTURE_SHIM_CLOSE@.subrange(108, 109) =~= ">"@);
    assert(FUTURE_SHIM_CLOSE@.subrange(111, 153) =~= "> =\n        ::std::boxed::Box::new(state);"@);
}

proof fn lemma_future_close_0(args: Seq<Seq<char>>)
    requires
        args.len() == 2,
    ensures
        filled_from(FUTURE_SHIM_CLOSE@, args, 4) == ("let state = CoroState { handle };"@) + filled_from(FUTURE_SHIM_CLOSE@, args, 37),
{
    lemma_future_close_template();
    let t = FUTURE_SHIM_CLOSE@;
    lemma_filled_literal(t, args, 4, "let state = CoroState { handle };"@);
}

proof fn lemma_future_close_1(args: Seq<Seq<char>>)
    requires
        args.len() == 2,
    ensures
        filled_from(FUTURE_SHIM_CLOSE@, args, 53) == ("::std::boxed::Box<dyn ::std::future::Future<Output = "@ + args[0] + ">"@ + args[1] + "> =\n        ::std::boxed::Box::new(state);"@) + filled_from(FUTURE_SHIM_CLOSE@, args, 153),
{
    lemma_future_close_template();
    let t = FUTURE_SHIM_CLOSE@;
    lemma_filled_literal(t, args, 53, "::std::boxed::Box<dyn ::std::future::Future<Output = "@);
    assert(filled_from(t, args, 106) == args[0] + filled_from(t, args, 108));
    lemma_filled_literal(t, args, 108, ">"@);
    assert(filled_from(t, args, 109) == args[1] + filled_from(t, args, 111));
    lemma_filled_literal(t, args, 111, "> =\n        ::std::boxed::Box::new(state);"@);
    lemma_regroup("::std::boxed::Box<dyn ::std::future::Future<Output = "@, args[0], filled_from(t, args, 108));
    lemma_regroup("::std::boxed::Box<dyn ::std::future::Future<Output = "@ + args[0], ">"@, filled_from(t, args, 109));
    lemma_regroup("::std::boxed::Box<dyn ::std::future::Future<Output = "@ + args[0] + ">"@, args[1], filled_from(t, args, 111));
    lemma_regroup("::std::boxed::Box<dyn ::std::future::Future<Output = "@ + args[0] + ">"@ + args[1], "> =\n        ::std::boxed::Box::new(state);"@, filled_from(t, args, 153));
}

/// What `FUTURE_SHIM_CLOSE` gives holds what is filled in, in its places.
pub proof fn lemma_future_close(args: Seq<Seq<char>>)
    requires
        args.len() == 2,
    ensures
        holds(filled(FUTURE_SHIM_CLOSE@, args), seq!["let state = CoroState { handle };"@, "::std::boxed::Box<dyn ::std::future::Future<Output = "@ + args[0] + ">"@ + args[1] + "> =\n        ::std::boxed::Box::new(state);"@]),
{
    lemma_future_close_template();
    let t = FUTURE_SHIM_CLOSE@;
    let parts = seq!["let state = CoroState { handle };"@, "::std::boxed::Box<dyn ::std::future::Future<Output = "@ + args[0] + ">"@ + args[1] + "> =\n        ::std::boxed::Box::new(state);"@];
    lemma_holds_nothing(filled_from(t, args, 153), parts);
    lemma_future_close_1(args);
    let before = lemma_filled_reaches(t, args, 37, 53);
    lemma_holds_step(filled_from(t, args, 37), before, filled_from(t, args, 153), parts, 1);
    lemma_future_close_0(args);
    let before = lemma_filled_reaches(t, args, 0, 4);
    lemma_holds_step(filled_from(t, args, 0), before, filled_from(t, args, 37), parts, 0);
    assert(parts.skip(0) =~= parts);
}

proof fn lemma_field_method_template()
    ensures
        occurs_at(FIELD_METHOD@, "inline "@, 64),
        FIELD_METHOD@[71] == '$',
        FIELD_METHOD@[72] == '0',
        occurs_at(FIELD_METHOD@, " "@, 73),
        FIELD_METHOD@[74] == '$',
        FIELD_METHOD@[75] == '1',
        occurs_at(FIELD_METHOD@, "::"@, 76),
        FIELD_METHOD@[78] == '$',
        FIELD_METHOD@[79] == '2',
        occurs_at(FIELD_METHOD@, "< "@, 80),
        FIELD_METHOD@[82] == '$',
        FIELD_METHOD@[83] == '3',
        occurs_at(FIELD_METHOD@, ", Offset, Offsets... >::"@, 84),
        FIELD_METHOD@[108] == '$',
        FIELD_METHOD@[109] == '4',
        occurs_at(FIELD_METHOD@, "(\n            "@, 110),
        FIELD_METHOD@[124] == '$',
        FIELD_METHOD@[125] == '5',
        occurs_at(FIELD_METHOD@, "\n        ) const noexcept {\n          return "@, 126),
        FIELD_METHOD@[171] == '$',
        FIELD_METHOD@[172] == '6',
        occurs_at(FIELD_METHOD@, "(\n            *this\n            "@, 173),
        FIELD_METHOD@[205] == '$',
        FIELD_METHOD@[206] == '7',
        !is_digit(FIELD_METHOD@[64]),
        "inline "@.len() == 7,
        !"inline "@.contains('$'),
        " "@.len() == 1,
        !" "@.contains('$'),
        "::"@.len() == 2,
        !"::"@.contains('$'),
        "< "@.len() == 2,
        !"< "@.contains('$'),
        ", Offset, Offsets... >::"@.len() == 24,
        !", Offset, Offsets... >::"@.contains('$'),
        "(\n            "@.len() == 14,
        !"(\n            "@.contains('$'),
        "\n        ) const noexcept {\n          return "@.len() == 45,
        !"\n        ) const noexcept {\n          return "@.contains('$'),
        "(\n            *this\n            "@.len() == 32,
        !"(\n            *this\n            "@.contains('$'),
        FIELD_METHOD@.len() == 231,
{
    reveal_strlit(r#"
        template<typename Offset, typename... Offsets>
        inline $0 $1::$2< $3, Offset, Offsets... >::$4(
            $5
        ) const noexcept {
          return $6(
            *this
            $7
          );
        }
"#);
    reveal_strlit("inline ");
    reveal_strlit(" ");
    reveal_strlit("::");
    reveal_strlit("< ");
    reveal_strlit(", Offset, Offsets... >::");
    reveal_strlit("(\n            ");
    reveal_strlit("\n        ) const noexcept {\n          return ");
    reveal_strlit("(\n            *this\n            ");
    assert(FIELD_METHOD@.subrange(64, 71) =~= "inline "@);
    assert(FIELD_METHOD@.subrange(73, 74) =~= " "@);
    assert(FIELD_METHOD@.subrange(76, 78) =~= "::"@);
    assert(FIELD_METHOD@.subrange(80, 82) =~= "< "@);
    assert(FIELD_METHOD@.subrange(84, 108) =~= ", Offset, Offsets... >::"@);
    assert(FIELD_METHOD@.subrange(110, 124) =~= "(\n            "@);
    assert(FIELD_METHOD@.subrange(126, 171) =~= "\n        ) const noexcept {\n          return "@);
    assert(FIELD_METHOD@.subrange(173, 205) =~= "(\n            *this\n            "@);
}

proof fn lemma_field_method_0(args: Seq<Seq<char>>)
    requires
        args.len() == 8,
    ensures
        filled_from(FIELD_METHOD@, args, 64) == ("inline "@ + args[0] + " "@ + args[1] + "::"@ + args[2] + "< "@ + args[3] + ", Offset, Offsets... >::"@ + args[4] + "(\n            "@ + args[5] + "\n        ) const noexcept {\n          return "@ + args[6] + "(\n            *this\n            "@ + args[7]) + filled_from(FIELD_METHOD@, args, 207),
{
    lemma_field_method_template();
    let t = FIELD_METHOD@;
    lemma_filled_literal(t, args, 64, "inline "@);
    assert(filled_from(t, args, 71) == args[0] + filled_from(t, args, 73));
    lemma_filled_literal(t, args, 73, " "@);
    assert(filled_from(t, args, 74) == args[1] + filled_from(t, args, 76));
    lemma_filled_literal(t, args, 76, "::"@);
    assert(filled_from(t, args, 78) == args[2] + filled_from(t, args, 80));
    lemma_filled_literal(t, args, 80, "< "@);
    assert(filled_from(t, args, 82) == args[3] + filled_from(t, args, 84));
    lemma_filled_literal(t, args, 84, ", Offset, Offsets... >::"@);
    assert(filled_from(t, args, 108) == args[4] + filled_from(t, args, 110));
    lemma_filled_literal(t, args, 110, "(\n            "@);
    assert(filled_from(t, args, 124) == args[5] + filled_from(t, args, 126));
    lemma_filled_literal(t, args, 126, "\n        ) const noexcept {\n          return "@);
    assert(filled_from(t, args, 171) == args[6] + filled_from(t, args, 173));
    lemma_filled_literal(t, args, 173, "(\n            *this\n            "@);
    assert(filled_from(t, args, 205) == args[7] + filled_from(t, args, 207));
    lemma_regroup("inline "@, args[0], filled_from(t, args, 73));
    lemma_regroup("inline "@ + args[0], " "@, filled_from(t, args, 74));
    lemma_regroup("inline "@ + args[0] + " "@, args[1], filled_from(t, args, 76));
    lemma_regroup("inline "@ + args[0] + " "@ + args[1], "::"@, filled_from(t, args, 78));
    lemma_regroup("inline "@ + args[0] + " "@ + args[1] + "::"@, args[2], filled_from(t, args, 80));
    lemma_regroup("inline "@ + args[0] + " "@ + args[1] + "::"@ + args[2], "< "@, filled_from(t, args, 82));
    lemma_regroup("inline "@ + args[0] + " "@ + args[1] + "::"@ + args[2] + "< "@, args[3], filled_from(t, args, 84));
    lemma_regroup("inline "@ + args[0] + " "@ + args[1] + "::"@ + args[2] + "< "@ + args[3], ", Offset, Offsets... >::"@, filled_from(t, args, 108));
    lemma_regroup("inline "@ + args[0] + " "@ + args[1] + "::"@ + args[2] + "< "@ + args[3] + ", Offset, Offsets... >::"@, args[4], filled_from(t, args, 110));
    lemma_regroup("inline "@ + args[0] + " "@ + args[1] + "::"@ + args[2] + "< "@ + args[3] + ", Offset, Offsets... >::"@ + args[4], "(\n            "@, filled_from(t, args, 124));
    lemma_regroup("inline "@ + args[0] + " "@ + args[1] + "::"@ + args[2] + "< "@ + args[3] + ", Offset, Offsets... >::"@ + args[4] + "(\n            "@, args[5], filled_from(t, args, 126));
    lemma_regroup("inline "@ + args[0] + " "@ + args[1] + "::"@ + args[2] + "< "@ + args[3] + ", Offset, Offsets... >::"@ + args[4] + "(\n            "@ + args[5], "\n        ) const noexcept {\n          return "@, filled_from(t, args, 171));
    lemma_regroup("inline "@ + args[0] + " "@ + args[1] + "::"@ + args[2] + "< "@ + args[3] + ", Offset, Offsets... >::"@ + args[4] + "(\n            "@ + args[5] + "\n        ) const noexcept {\n          return "@, args[6], filled_from(t, args, 173));
    lemma_regroup("inline "@ + args[0] + " "@ + args[1] + "::"@ + args[2] + "< "@ + args[3] + ", Offset, Offsets... >::"@ + args[4] + "(\n            "@ + args[5] + "\n        ) const noexcept {\n          return "@ + args[6], "(\n            *this\n            "@, filled_from(t, args, 205));
    lemma_regroup("inline "@ + args[0] + " "@ + args[1] + "::"@ + args[2] + "< "@ + args[3] + ", Offset, Offsets... >::"@ + args[4] + "(\n            "@ + args[5] + "\n        ) const noexcept {\n          return "@ + args[6] + "(\n            *this\n            "@, args[7], filled_from(t, args, 207));
}

/// What `FIELD_METHOD` gives holds what is filled in, in its places.
pub proof fn lemma_field_method(args: Seq<Seq<char>>)
    requires
        args.len() == 8,
    ensures
        holds(filled(FIELD_METHOD@, args), seq!["inline "@ + args[0] + " "@ + args[1] + "::"@ + args[2] + "< "@ + args[3] + ", Offset, Offsets... >::"@ + args[4] + "(\n            "@ + args[5] + "\n        ) const noexcept {\n          return "@ + args[6] + "(\n            *this\n            "@ + args[7]]),
{
    lemma_field_method_template();
    let t = FIELD_METHOD@;
    let parts = seq!["inline "@ + args[0] + " "@ + args[1] + "::"@ + args[2] + "< "@ + args[3] + ", Offset, Offsets... >::"@ + args[4] + "(\n            "@ + args[5] + "\n        ) const noexcept {\n          return "@ + args[6] + "(\n            *this\n            "@ + args[7]];
    lemma_holds_nothing(filled_from(t, args, 207), parts);
    lemma_field_method_0(args);
    let before = lemma_filled_reaches(t, args, 0, 64);
    lemma_holds_step(filled_from(t, args, 0), before, filled_from(t, args, 207), parts, 0);
    assert(parts.skip(0) =~= parts);
}

proof fn lemma_ref_method_template()
    ensures
        occurs_at(REF_METHOD@, "inline "@, 9),
        REF_METHOD@[16] == '$',
        REF_METHOD@[17] == '0',
        occurs_at(REF_METHOD@, " "@, 18),
        REF_METHOD@[19] == '$',
        REF_METHOD@[20] == '1',
        occurs_at(REF_METHOD@, "::"@, 21),
        REF_METHOD@[23] == '$',
        REF_METHOD@[24] == '2',
        occurs_at(REF_METHOD@, "< "@, 25),
        REF_METHOD@[27] == '$',
        REF_METHOD@[28] == '3',
        occurs_at(REF_METHOD@, " >::"@, 29),
        REF_METHOD@[33] == '$',
        REF_METHOD@[34] == '4',
        occurs_at(REF_METHOD@, "(\n            "@, 35),
        REF_METHOD@[49] == '$',
        REF_METHOD@[50] == '5',
        occurs_at(REF_METHOD@, "\n        ) const noexcept {\n          return "@, 51),
        REF_METHOD@[96] == '$',
        REF_METHOD@[97] == '6',
        occurs_at(REF_METHOD@, "(\n            *this\n            "@, 98),
        REF_METHOD@[130] == '$',
        REF_METHOD@[131] == '7',
        !is_digit(REF_METHOD@[9]),
        "inline "@.len() == 7,
        !"inline "@.contains('$'),
        " "@.len() == 1,
        !" "@.contains('$'),
        "::"@.len() == 2,
        !"::"@.contains('$'),
        "< "@.len() == 2,
        !"< "@.contains('$'),
        " >::"@.len() == 4,
        !" >::"@.contains('$'),
        "(\n            "@.len() == 14,
        !"(\n            "@.contains('$'),
        "\n        ) const noexcept {\n          return "@.len() == 45,
        !"\n        ) const noexcept {\n          return "@.contains('$'),
        "(\n            *this\n            "@.len() == 32,
        !"(\n            *this\n            "@.contains('$'),
        REF_METHOD@.len() == 156,
{
    reveal_strlit(r#"
        inline $0 $1::$2< $3 >::$4(
            $5
        ) const noexcept {
          return $6(
            *this
            $7
          );
        }
"#);
    reveal_strlit("inline ");
    reveal_strlit(" ");
    reveal_strlit("::");
    reveal_strlit("< ");
    reveal_strlit(" >::");
    reveal_strlit("(\n            ");
    reveal_strlit("\n        ) const noexcept {\n          return ");
    reveal_strlit("(\n            *this\n            ");
    assert(REF_METHOD@.subrange(9, 16) =~= "inline "@);
    assert(REF_METHOD@.subrange(18, 19) =~= " "@);
    assert(REF_METHOD@.subrange(21, 23) =~= "::"@);
    assert(REF_METHOD@.subrange(25, 27) =~= "< "@);
    assert(REF_METHOD@.subrange(29, 33) =~= " >::"@);
    assert(REF_METHOD@.subrange(35, 49) =~= "(\n            "@);
    assert(REF_METHOD@.subrange(51, 96) =~= "\n        ) const noexcept {\n          return "@);
    assert(REF_METHOD@.subrange(98, 130) =~= "(\n            *this\n            "@);
}

proof fn lemma_ref_method_0(args: Seq<Seq<char>>)
    requires
        args.len() == 8,
    ensures
        filled_from(REF_METHOD@, args, 9) == ("inline "@ + args[0] + " "@ + args[1] + "::"@ + args[2] + "< "@ + args[3] + " >::"@ + args[4] + "(\n            "@ + args[5] + "\n        ) const noexcept {\n          return "@ + args[6] + "(\n            *this\n            "@ + args[7]) + filled_from(REF_METHOD@, args, 132),
{
    lemma_ref_method_template();
    let t = REF_METHOD@;
    lemma_filled_literal(t, args, 9, "inline "@);
    assert(filled_from(t, args, 16) == args[0] + filled_from(t, args, 18));
    lemma_filled_literal(t, args, 18, " "@);
    assert(filled_from(t, args, 19) == args[1] + filled_from(t, args, 21));
    lemma_filled_literal(t, args, 21, "::"@);
    assert(filled_from(t, args, 23) == args[2] + filled_from(t, args, 25));
    lemma_filled_literal(t, args, 25, "< "@);
    assert(filled_from(t, args, 27) == args[3] + filled_from(t, args, 29));
    lemma_filled_literal(t, args, 29, " >::"@);
    assert(filled_from(t, args, 33) == args[4] + filled_from(t, args, 35));
    lemma_filled_literal(t, args, 35, "(\n            "@);
    assert(filled_from(t, args, 49) == args[5] + filled_from(t, args, 51));
    lemma_filled_literal(t, args, 51, "\n        ) const noexcept {\n          return "@);
    assert(filled_from(t, args, 96) == args[6] + filled_from(t, args, 98));
    lemma_filled_literal(t, args, 98, "(\n            *this\n            "@);
    assert(filled_from(t, args, 130) == args[7] + filled_from(t, args, 132));
    lemma_regroup("inline "@, args[0], filled_from(t, args, 18));
    lemma_regroup("inline "@ + args[0], " "@, filled_from(t, args, 19));
    lemma_regroup("inline "@ + args[0] + " "@, args[1], filled_from(t, args, 21));
    lemma_regroup("inline "@ + args[0] + " "@ + args[1], "::"@, filled_from(t, args, 23));
    lemma_regroup("inline "@ + args[0] + " "@ + args[1] + "::"@, args[2], filled_from(t, args, 25));
    lemma_regroup("inline "@ + args[0] + " "@ + args[1] + "::"@ + args[2], "< "@, filled_from(t, args, 27));
    lemma_regroup("inline "@ + args[0] + " "@ + args[1] + "::"@ + args[2] + "< "@, args[3], filled_from(t, args, 29));
    lemma_regroup("inline "@ + args[0] + " "@ + args[1] + "::"@ + args[2] + "< "@ + args[3], " >::"@, filled_from(t, args, 33));
    lemma_regroup("inline "@ + args[0] + " "@ + args[1] + "::"@ + args[2] + "< "@ + args[3] + " >::"@, args[4], filled_from(t, args, 35));
    lemma_regroup("inline "@ + args[0] + " "@ + args[1] + "::"@ + args[2] + "< "@ + args[3] + " >::"@ + args[4], "(\n            "@, filled_from(t, args, 49));
    lemma_regroup("inline "@ + args[0] + " "@ + args[1] + "::"@ + args[2] + "< "@ + args[3] + " >::"@ + args[4] + "(\n            "@, args[5], filled_from(t, args, 51));
    lemma_regroup("inline "@ + args[0] + " "@ + args[1] + "::"@ + args[2] + "< "@ + args[3] + " >::"@ + args[4] + "(\n            "@ + args[5], "\n        ) const noexcept {\n          return "@, filled_from(t, args, 96));
    lemma_regroup("inline "@ + args[0] + " "@ + args[1] + "::"@ + args[2] + "< "@ + args[3] + " >::"@ + args[4] + "(\n            "@ + args[5] + "\n        ) const noexcept {\n          return "@, args[6], filled_from(t, args, 98));
    lemma_regroup("inline "@ + args[0] + " "@ + args[1] + "::"@ + args[2] + "< "@ + args[3] + " >::"@ + args[4] + "(\n            "@ + args[5] + "\n        ) const noexcept {\n          return "@ + args[6], "(\n            *this\n            "@, filled_from(t, args, 130));
    lemma_regroup("inline "@ + args[0] + " "@ + args[1] + "::"@ + args[2] + "< "@ + args[3] + " >::"@ + args[4] + "(\n            "@ + args[5] + "\n        ) const noexcept {\n          return "@ + args[6] + "(\n            *this\n            "@, args[7], filled_from(t, args, 132));
}

/// What `REF_METHOD` gives holds what is filled in, in its places.
pub proof fn lemma_ref_method(args: Seq<Seq<char>>)
    requires
        args.len() == 8,
    ensures
        holds(filled(REF_METHOD@, args), seq!["inline "@ + args[0] + " "@ + args[1] + "::"@ + args[2] + "< "@ + args[3] + " >::"@ + args[4] + "(\n            "@ + args[5] + "\n        ) const noexcept {\n          return "@ + args[6] + "(\n            *this\n            "@ + args[7]]),
{
    lemma_ref_method_template();
    let t = REF_METHOD@;
    let parts = seq!["inline "@ + args[0] + " "@ + args[1] + "::"@ + args[2] + "< "@ + args[3] + " >::"@ + args[4] + "(\n            "@ + args[5] + "\n        ) const noexcept {\n          return "@ + args[6] + "(\n            *this\n            "@ + args[7]];
    lemma_holds_nothing(filled_from(t, args, 132), parts);
    lemma_ref_method_0(args);
    let before = lemma_filled_reaches(t, args, 0, 9);
    lemma_holds_step(filled_from(t, args, 0), before, filled_from(t, args, 132), parts, 0);
    assert(parts.skip(0) =~= parts);
}

proof fn lemma_owned_method_template()
    ensures
        occurs_at(OWNED_METHOD@, "inline "@, 7),
        OWNED_METHOD@[14] == '$',
        OWNED_METHOD@[15] == '0',
        occurs_at(OWNED_METHOD@, " "@, 16),
        OWNED_METHOD@[17] == '$',
        OWNED_METHOD@[18] == '1',
        occurs_at(OWNED_METHOD@, "(\n            "@, 19),
        OWNED_METHOD@[33] == '$',
        OWNED_METHOD@[34] == '2',
        occurs_at(OWNED_METHOD@, "\n      ) "@, 35),
        OWNED_METHOD@[44] == '$',
        OWNED_METHOD@[45] == '3',
        occurs_at(OWNED_METHOD@, " noexcept {\n        return "@, 46),
        OWNED_METHOD@[73] == '$',
        OWNED_METHOD@[74] == '1',
        occurs_at(OWNED_METHOD@, "(\n          "@, 75),
        OWNED_METHOD@[87] == '$',
        OWNED_METHOD@[88] == '4',
        occurs_at(OWNED_METHOD@, "\n          "@, 89),
        OWNED_METHOD@[100] == '$',
        OWNED_METHOD@[101] == '5',
        !is_digit(OWNED_METHOD@[7]),
        "inline "@.len() == 7,
        !"inline "@.contains('$'),
        " "@.len() == 1,
        !" "@.contains('$'),
        "(\n            "@.len() == 14,
        !"(\n            "@.contains('$'),
        "\n      ) "@.len() == 9,
        !"\n      ) "@.contains('$'),
        " noexcept {\n        return "@.len() == 27,
        !" noexcept {\n        return "@.contains('$'),
        "(\n          "@.len() == 12,
        !"(\n          "@.contains('$'),
        "\n          "@.len() == 11,
        !"\n          "@.contains('$'),
        OWNED_METHOD@.len() == 122,
{
    reveal_strlit(r#"
      inline $0 $1(
            $2
      ) $3 noexcept {
        return $1(
          $4
          $5
        );
      }
"#);
    reveal_strlit("inline ");
    reveal_strlit(" ");
    reveal_strlit("(\n            ");
    reveal_strlit("\n      ) ");
    reveal_strlit(" noexcept {\n        return ");
    reveal_strlit("(\n          ");
    reveal_strlit("\n          ");
    assert(OWNED_METHOD@.subrange(7, 14) =~= "inline "@);
    assert(OWNED_METHOD@.subrange(16, 17) =~= " "@);
    assert(OWNED_METHOD@.subrange(19, 33) =~= "(\n            "@);
    assert(OWNED_METHOD@.subrange(35, 44) =~= "\n      ) "@);
    assert(OWNED_METHOD@.subrange(46, 73) =~= " noexcept {\n        return "@);
    assert(OWNED_METHOD@.subrange(75, 87) =~= "(\n          "@);
    assert(OWNED_METHOD@.subrange(89, 100) =~= "\n          "@);
}

proof fn lemma_owned_method_0(args: Seq<Seq<char>>)
    requires
        args.len() == 6,
    ensures
        filled_from(OWNED_METHOD@, args, 7) == ("inline "@ + args[0] + " "@ + args[1] + "(\n            "@ + args[2] + "\n      ) "@ + args[3] + " noexcept {\n        return "@ + args[1] + "(\n          "@ + args[4] + "\n          "@ + args[5]) + filled_from(OWNED_METHOD@, args, 102),
{
    lemma_owned_method_template();
    let t = OWNED_METHOD@;
    lemma_filled_literal(t, args, 7, "inline "@);
    assert(filled_from(t, args, 14) == args[0] + filled_from(t, args, 16));
    lemma_filled_literal(t, args, 16, " "@);
    assert(filled_from(t, args, 17) == args[1] + filled_from(t, args, 19));
    lemma_filled_literal(t, args, 19, "(\n            "@);
    assert(filled_from(t, args, 33) == args[2] + filled_from(t, args, 35));
    lemma_filled_literal(t, args, 35, "\n      ) "@);
    assert(filled_from(t, args, 44) == args[3] + filled_from(t, args, 46));
    lemma_filled_literal(t, args, 46, " noexcept {\n        return "@);
    assert(filled_from(t, args, 73) == args[1] + filled_from(t, args, 75));
    lemma_filled_literal(t, args, 75, "(\n          "@);
    assert(filled_from(t, args, 87) == args[4] + filled_from(t, args, 89));
    lemma_filled_literal(t, args, 89, "\n          "@);
    assert(filled_from(t, args, 100) == args[5] + filled_from(t, args, 102));
    lemma_regroup("inline "@, args[0], filled_from(t, args, 16));
    lemma_regroup("inline "@ + args[0], " "@, filled_from(t, args, 17));
    lemma_regroup("inline "@ + args[0] + " "@, args[1], filled_from(t, args, 19));
    lemma_regroup("inline "@ + args[0] + " "@ + args[1], "(\n            "@, filled_from(t, args, 33));
    lemma_regroup("inline "@ + args[0] + " "@ + args[1] + "(\n            "@, args[2], filled_from(t, args, 35));
    lemma_regroup("inline "@ + args[0] + " "@ + args[1] + "(\n            "@ + args[2], "\n      ) "@, filled_from(t, args, 44));
    lemma_regroup("inline "@ + args[0] + " "@ + args[1] + "(\n            "@ + args[2] + "\n      ) "@, args[3], filled_from(t, args, 46));
    lemma_regroup("inline "@ + args[0] + " "@ + args[1] + "(\n            "@ + args[2] + "\n      ) "@ + args[3], " noexcept {\n        return "@, filled_from(t, args, 73));
    lemma_regroup("inline "@ + args[0] + " "@ + args[1] + "(\n            "@ + args[2] + "\n      ) "@ + args[3] + " noexcept {\n        return "@, args[1], filled_from(t, args, 75));
    lemma_regroup("inline "@ + args[0] + " "@ + args[1] + "(\n            "@ + args[2] + "\n      ) "@ + args[3] + " noexcept {\n        return "@ + args[1], "(\n          "@, filled_from(t, args, 87));
    lemma_regroup("inline "@ + args[0] + " "@ + args[1] + "(\n            "@ + args[2] + "\n      ) "@ + args[3] + " noexcept {\n        return "@ + args[1] + "(\n          "@, args[4], filled_from(t, args, 89));
    lemma_regroup("inline "@ + args[0] + " "@ + args[1] + "(\n            "@ + args[2] + "\n      ) "@ + args[3] + " noexcept {\n        return "@ + args[1] + "(\n          "@ + args[4], "\n          "@, filled_from(t, args, 100));
    lemma_regroup("inline "@ + args[0] + " "@ + args[1] + "(\n            "@ + args[2] + "\n      ) "@ + args[3] + " noexcept {\n        return "@ + args[1] + "(\n          "@ + args[4] + "\n          "@, args[5], filled_from(t, args, 102));
}

/// What `OWNED_METHOD` gives holds what is filled in, in its places.
pub proof fn lemma_owned_method(args: Seq<Seq<char>>)
    requires
        args.len() == 6,
    ensures
        holds(filled(OWNED_METHOD@, args), seq!["inline "@ + args[0] + " "@ + args[1] + "(\n            "@ + args[2] + "\n      ) "@ + args[3] + " noexcept {\n        return "@ + args[1] + "(\n          "@ + args[4] + "\n          "@ + args[5]]),
{
    lemma_owned_method_template();
    let t = OWNED_METHOD@;
    let parts = seq!["inline "@ + args[0] + " "@ + args[1] + "(\n            "@ + args[2] + "\n      ) "@ + args[3] + " noexcept {\n        return "@ + args[1] + "(\n          "@ + args[4] + "\n          "@ + args[5]];
    lemma_holds_nothing(filled_from(t, args, 102), parts);
    lemma_owned_method_0(args);
    let before = lemma_filled_reaches(t, args, 0, 7);
    lemma_holds_step(filled_from(t, args, 0), before, filled_from(t, args, 102), parts, 0);
    assert(parts.skip(0) =~= parts);
}

proof fn lemma_box_from_closure_template()
    ensures
        occurs_at(BOX_FROM_CLOSURE@, "inline "@, 5),
        BOX_FROM_CLOSURE@[12] == '$',
        BOX_FROM_CLOSURE@[13] == '0',
        occurs_at(BOX_FROM_CLOSURE@, " "@, 14),
        BOX_FROM_CLOSURE@[15] == '$',
        BOX_FROM_CLOSURE@[16] == '0',
        occurs_at(BOX_FROM_CLOSURE@, "::make_box("@, 17),
        BOX_FROM_CLOSURE@[28] == '$',
        BOX_FROM_CLOSURE@[29] == '1',
        occurs_at(BOX_FROM_CLOSURE@, " f) {"@, 30),
        !is_digit(BOX_FROM_CLOSURE@[5]),
        BOX_FROM_CLOSURE@[136] == '$',
        BOX_FROM_CLOSURE@[137] == '3',
        occurs_at(BOX_FROM_CLOSURE@, " (\n        reinterpret_cast<uint8_t*>(__zngur_data),\n        [](uint8_t *d) { delete reinterpret_cast< "@, 138),
        BOX_FROM_CLOSURE@[241] == '$',
        BOX_FROM_CLOSURE@[242] == '1',
        occurs_at(BOX_FROM_CLOSURE@, "*>(d); },\n        [](uint8_t *d, "@, 243),
        BOX_FROM_CLOSURE@[276] == '$',
        BOX_FROM_CLOSURE@[277] == '4',
        occurs_at(BOX_FROM_CLOSURE@, " uint8_t* o) {"@, 278),
        BOX_FROM_CLOSURE@[351] == '$',
        BOX_FROM_CLOSURE@[352] == '5',
        occurs_at(BOX_FROM_CLOSURE@, " oo = (*dd)("@, 353),
        BOX_FROM_CLOSURE@[365] == '$',
        BOX_FROM_CLOSURE@[366] == '6',
        occurs_at(BOX_FROM_CLOSURE@, ");"@, 367),
        occurs_at(BOX_FROM_CLOSURE@, "__zngur_internal_move_to_rust< "@, 386),
        BOX_FROM_CLOSURE@[417] == '$',
        BOX_FROM_CLOSURE@[418] == '5',
        occurs_at(BOX_FROM_CLOSURE@, " >(o, oo);"@, 419),
        !is_digit(BOX_FROM_CLOSURE@[386]),
        "inline "@.len() == 7,
        !"inline "@.contains('$'),
        " "@.len() == 1,
        !" "@.contains('$'),
        "::make_box("@.len() == 11,
        !"::make_box("@.contains('$'),
        " f) {"@.len() == 5,
        !" f) {"@.contains('$'),
        " (\n        reinterpret_cast<uint8_t*>(__zngur_data),\n        [](uint8_t *d) { delete reinterpret_cast< "@.len() == 103,
        !" (\n        reinterpret_cast<uint8_t*>(__zngur_data),\n        [](uint8_t *d) { delete reinterpret_cast< "@.contains('$'),
        "*>(d); },\n        [](uint8_t *d, "@.len() == 33,
        !"*>(d); },\n        [](uint8_t *d, "@.contains('$'),
        " uint8_t* o) {"@.len() == 14,
        !" uint8_t* o) {"@.contains('$'),
        " oo = (*dd)("@.len() == 12,
        !" oo = (*dd)("@.contains('$'),
        ");"@.len() == 2,
        !");"@.contains('$'),
        "__zngur_internal_move_to_rust< "@.len() == 31,
        !"__zngur_internal_move_to_rust< "@.contains('$'),
        " >(o, oo);"@.len() == 10,
        !" >(o, oo);"@.contains('$'),
        BOX_FROM_CLOSURE@.len() == 515,
{
    reveal_strlit(r#"
    inline $0 $0::make_box($1 f) {
      auto __zngur_data = new $1(f);
      $0 o;
      ::$2::__zngur_internal_assume_init(o);
      $3 (
        reinterpret_cast<uint8_t*>(__zngur_data),
        [](uint8_t *d) { delete reinterpret_cast< $1*>(d); },
        [](uint8_t *d, $4 uint8_t* o) {
          auto dd = reinterpret_cast< $1 *>(d);
          $5 oo = (*dd)($6);
          ::$2::__zngur_internal_move_to_rust< $5 >(o, oo);
        },
        ::$2::__zngur_internal_data_ptr(o)
      );
      return o;
    }
"#);
    reveal_strlit("inline ");
    reveal_strlit(" ");
    reveal_strlit("::make_box(");
    reveal_strlit(" f) {");
    reveal_strlit(" (\n        reinterpret_cast<uint8_t*>(__zngur_data),\n        [](uint8_t *d) { delete reinterpret_cast< ");
    reveal_strlit("*>(d); },\n        [](uint8_t *d, ");
    reveal_strlit(" uint8_t* o) {");
    reveal_strlit(" oo = (*dd)(");
    reveal_strlit(");");
    reveal_strlit("__zngur_internal_move_to_rust< ");
    reveal_strlit(" >(o, oo);");
    assert(BOX_FROM_CLOSURE@.subrange(5, 12) =~= "inline "@);
    assert(BOX_FROM_CLOSURE@.subrange(14, 15) =~= " "@);
    assert(BOX_FROM_CLOSURE@.subrange(17, 28) =~= "::make_box("@);
    assert(BOX_FROM_CLOSURE@.subrange(30, 35) =~= " f) {"@);
    assert(BOX_FROM_CLOSURE@.subrange(138, 241) =~= " (\n        reinterpret_cast<uint8_t*>(__zngur_data),\n        [](uint8_t *d) { delete reinterpret_cast< "@);
    assert(BOX_FROM_CLOSURE@.subrange(243, 276) =~= "*>(d); },\n        [](uint8_t *d, "@);
    assert(BOX_FROM_CLOSURE@.subrange(278, 292) =~= " uint8_t* o) {"@);
    assert(BOX_FROM_CLOSURE@.subrange(353, 365) =~= " oo = (*dd)("@);
    assert(BOX_FROM_CLOSURE@.subrange(367, 369) =~= ");"@);
    assert(BOX_FROM_CLOSURE@.subrange(386, 417) =~= "__zngur_internal_move_to_rust< "@);
    assert(BOX_FROM_CLOSURE@.subrange(419, 429) =~= " >(o, oo);"@);
}

proof fn lemma_box_from_closure_0(args: Seq<Seq<char>>)
    requires
        args.len() == 7,
    ensures
        filled_from(BOX_FROM_CLOSURE@, args, 5) == ("inline "@ + args[0] + " "@ + args[0] + "::make_box("@ + args[1] + " f) {"@) + filled_from(BOX_FROM_CLOSURE@, args, 35),
{
    lemma_box_from_closure_template();
    let t = BOX_FROM_CLOSURE@;
    lemma_filled_literal(t, args, 5, "inline "@);
    assert(filled_from(t, args, 12) == args[0] + filled_from(t, args, 14));
    lemma_filled_literal(t, args, 14, " "@);
    assert(filled_from(t, args, 15) == args[0] + filled_from(t, args, 17));
    lemma_filled_literal(t, args, 17, "::make_box("@);
    assert(filled_from(t, args, 28) == args[1] + filled_from(t, args, 30));
    lemma_filled_literal(t, args, 30, " f) {"@);
    lemma_regroup("inline "@, args[0], filled_from(t, args, 14));
    lemma_regroup("inline "@ + args[0], " "@, filled_from(t, args, 15));
    lemma_regroup("inline "@ + args[0] + " "@, args[0], filled_from(t, args, 17));
    lemma_regroup("inline "@ + args[0] + " "@ + args[0], "::make_box("@, filled_from(t, args, 28));
    lemma_regroup("inline "@ + args[0] + " "@ + args[0] + "::make_box("@, args[1], filled_from(t, args, 30));
    lemma_regroup("inline "@ + args[0] + " "@ + args[0] + "::make_box("@ + args[1], " f) {"@, filled_from(t, args, 35));
}

proof fn lemma_box_from_closure_1(args: Seq<Seq<char>>)
    requires
        args.len() == 7,
    ensures
        filled_from(BOX_FROM_CLOSURE@, args, 136) == (args[3] + " (\n        reinterpret_cast<uint8_t*>(__zngur_data),\n        [](uint8_t *d) { delete reinterpret_cast< "@ + args[1] + "*>(d); },\n        [](uint8_t *d, "@ + args[4] + " uint8_t* o) {"@) + filled_from(BOX_FROM_CLOSURE@, args, 292),
{
    lemma_box_from_closure_template();
    let t = BOX_FROM_CLOSURE@;
    assert(filled_from(t, args, 136) == args[3] + filled_from(t, args, 138));
    lemma_filled_literal(t, args, 138, " (\n        reinterpret_cast<uint8_t*>(__zngur_data),\n        [](uint8_t *d) { delete reinterpret_cast< "@);
    assert(filled_from(t, args, 241) == args[1] + filled_from(t, args, 243));
    lemma_filled_literal(t, args, 243, "*>(d); },\n        [](uint8_t *d, "@);
    assert(filled_from(t, args, 276) == args[4] + filled_from(t, args, 278));
    lemma_filled_literal(t, args, 278, " uint8_t* o) {"@);
    lemma_regroup(args[3], " (\n        reinterpret_cast<uint8_t*>(__zngur_data),\n        [](uint8_t *d) { delete reinterpret_cast< "@, filled_from(t, args, 241));
    lemma_regroup(args[3] + " (\n        reinterpret_cast<uint8_t*>(__zngur_data),\n        [](uint8_t *d) { delete reinterpret_cast< "@, args[1], filled_from(t, args, 243));
    lemma_regroup(args[3] + " (\n        reinterpret_cast<uint8_t*>(__zngur_data),\n        [](uint8_t *d) { delete reinterpret_cast< "@ + args[1], "*>(d); },\n        [](uint8_t *d, "@, filled_from(t, args, 276));
    lemma_regroup(args[3] + " (\n        reinterpret_cast<uint8_t*>(__zngur_data),\n        [](uint8_t *d) { delete reinterpret_cast< "@ + args[1] + "*>(d); },\n        [](uint8_t *d, "@, args[4], filled_from(t, args, 278));
    lemma_regroup(args[3] + " (\n        reinterpret_cast<uint8_t*>(__zngur_data),\n        [](uint8_t *d) { delete reinterpret_cast< "@ + args[1] + "*>(d); },\n        [](uint8_t *d, "@ + args[4], " uint8_t* o) {"@, filled_from(t, args, 292));
}

proof fn lemma_box_from_closure_2(args: Seq<Seq<char>>)
    requires
        args.len() == 7,
    ensures
        filled_from(BOX_FROM_CLOSURE@, args, 351) == (args[5] + " oo = (*dd)("@ + args[6] + ");"@) + filled_from(BOX_FROM_CLOSURE@, args, 369),
{
    lemma_box_from_closure_template();
    let t = BOX_FROM_CLOSURE@;
    assert(filled_from(t, args, 351) == args[5] + filled_from(t, args, 353));
    lemma_filled_literal(t, args, 353, " oo = (*dd)("@);
    assert(filled_from(t, args, 365) == args[6] + filled_from(t, args, 367));
    lemma_filled_literal(t, args, 367, ");"@);
    lemma_regroup(args[5], " oo = (*dd)("@, filled_from(t, args, 365));
    lemma_regroup(args[5] + " oo = (*dd)("@, args[6], filled_from(t, args, 367));
    lemma_regroup(args[5] + " oo = (*dd)("@ + args[6], ");"@, filled_from(t, args, 369));
}

proof fn lemma_box_from_closure_3(args: Seq<Seq<char>>)
    requires
        args.len() == 7,
    ensures
        filled_from(BOX_FROM_CLOSURE@, args, 386) == ("__zngur_internal_move_to_rust< "@ + args[5] + " >(o, oo);"@) + filled_from(BOX_FROM_CLOSURE@, args, 429),
{
    lemma_box_from_closure_template();
    let t = BOX_FROM_CLOSURE@;
    lemma_filled_literal(t, args, 386, "__zngur_internal_move_to_rust< "@);
    assert(filled_from(t, args, 417) == args[5] + filled_from(t, args, 419));
    lemma_filled_literal(t, args, 419, " >(o, oo);"@);
    lemma_regroup("__zngur_internal_move_to_rust< "@, args[5], filled_from(t, args, 419));
    lemma_regroup("__zngur_internal_move_to_rust< "@ + args[5], " >(o, oo);"@, filled_from(t, args, 429));
}

/// What `BOX_FROM_CLOSURE` gives holds what is filled in, in its places.
pub proof fn lemma_box_from_closure(args: Seq<Seq<char>>)
    requires
        args.len() == 7,
    ensures
        holds(filled(BOX_FROM_CLOSURE@, args), seq!["inline "@ + args[0] + " "@ + args[0] + "::make_box("@ + args[1] + " f) {"@, args[3] + " (\n        reinterpret_cast<uint8_t*>(__zngur_data),\n        [](uint8_t *d) { delete reinterpret_cast< "@ + args[1] + "*>(d); },\n        [](uint8_t *d, "@ + args[4] + " uint8_t* o) {"@, args[5] + " oo = (*dd)("@ + args[6] + ");"@, "__zngur_internal_move_to_rust< "@ + args[5] + " >(o, oo);"@]),
{
    lemma_box_from_closure_template();
    let t = BOX_FROM_CLOSURE@;
    let parts = seq!["inline "@ + args[0] + " "@ + args[0] + "::make_box("@ + args[1] + " f) {"@, args[3] + " (\n        reinterpret_cast<uint8_t*>(__zngur_data),\n        [](uint8_t *d) { delete reinterpret_cast< "@ + args[1] + "*>(d); },\n        [](uint8_t *d, "@ + args[4] + " uint8_t* o) {"@, args[5] + " oo = (*dd)("@ + args[6] + ");"@, "__zngur_internal_move_to_rust< "@ + args[5] + " >(o, oo);"@];
    lemma_holds_nothing(filled_from(t, args, 429), parts);
    lemma_box_from_closure_3(args);
    let before = lemma_filled_reaches(t, args, 369, 386);
    lemma_holds_step(filled_from(t, args, 369), before, filled_from(t, args, 429), parts, 3);
    lemma_box_from_closure_2(args);
    let before = lemma_filled_reaches(t, args, 292, 351);
    lemma_holds_step(filled_from(t, args, 292), before, filled_from(t, args, 369), parts, 2);
    lemma_box_from_closure_1(args);
    let before = lemma_filled_reaches(t, args, 35, 136);
    lemma_holds_step(filled_from(t, args, 35), before, filled_from(t, args, 292), parts, 1);
    lemma_box_from_closure_0(args);
    let before = lemma_filled_reaches(t, args, 0, 5);
    lemma_holds_step(filled_from(t, args, 0), before, filled_from(t, args, 35), parts, 0);
    assert(parts.skip(0) =~= parts);
}

proof fn lemma_box_from_impl_template()
    ensures
        BOX_FROM_IMPL@[49] == '$',
        BOX_FROM_IMPL@[50] == '0',
        occurs_at(BOX_FROM_IMPL@, " "@, 51),
        BOX_FROM_IMPL@[52] == '$',
        BOX_FROM_IMPL@[53] == '0',
        occurs_at(BOX_FROM_IMPL@, "::make_box(Args&&... args) {"@, 54),
        occurs_at(BOX_FROM_IMPL@, "dynamic_cast< "@, 173),
        BOX_FROM_IMPL@[187] == '$',
        BOX_FROM_IMPL@[188] == '1',
        occurs_at(BOX_FROM_IMPL@, "*>(__zngur_data);"@, 189),
        !is_digit(BOX_FROM_IMPL@[173]),
        BOX_FROM_IMPL@[270] == '$',
        BOX_FROM_IMPL@[271] == '3',
        occurs_at(BOX_FROM_IMPL@, " (\n        reinterpret_cast<uint8_t*>(data_as_impl),\n        [](uint8_t *d) { delete reinterpret_cast< "@, 272),
        BOX_FROM_IMPL@[375] == '$',
        BOX_FROM_IMPL@[376] == '1',
        occurs_at(BOX_FROM_IMPL@, "*>(d); },"@, 377),
        " "@.len() == 1,
        !" "@.contains('$'),
        "::make_box(Args&&... args) {"@.len() == 28,
        !"::make_box(Args&&... args) {"@.contains('$'),
        "dynamic_cast< "@.len() == 14,
        !"dynamic_cast< "@.contains('$'),
        "*>(__zngur_data);"@.len() == 17,
        !"*>(__zngur_data);"@.contains('$'),
        " (\n        reinterpret_cast<uint8_t*>(data_as_impl),\n        [](uint8_t *d) { delete reinterpret_cast< "@.len() == 103,
        !" (\n        reinterpret_cast<uint8_t*>(data_as_impl),\n        [](uint8_t *d) { delete reinterpret_cast< "@.contains('$'),
        "*>(d); },"@.len() == 9,
        !"*>(d); },"@.contains('$'),
        BOX_FROM_IMPL@.len() == 461,
{
    reveal_strlit(r#"
    template <typename T, typename... Args>
    $0 $0::make_box(Args&&... args) {
      auto __zngur_data = new T(::std::forward<Args>(args)...);
      auto data_as_impl = dynamic_cast< $1*>(__zngur_data);
      $0 o;
      ::$2::__zngur_internal_assume_init(o);
      $3 (
        reinterpret_cast<uint8_t*>(data_as_impl),
        [](uint8_t *d) { delete reinterpret_cast< $1*>(d); },
        ::$2::__zngur_internal_data_ptr(o)
      );
      return o;
    }
"#);
    reveal_strlit(" ");
    reveal_strlit("::make_box(Args&&... args) {");
    reveal_strlit("dynamic_cast< ");
    reveal_strlit("*>(__zngur_data);");
    reveal_strlit(" (\n        reinterpret_cast<uint8_t*>(data_as_impl),\n        [](uint8_t *d) { delete reinterpret_cast< ");
    reveal_strlit("*>(d); },");
    assert(BOX_FROM_IMPL@.subrange(51, 52) =~= " "@);
    assert(BOX_FROM_IMPL@.subrange(54, 82) =~= "::make_box(Args&&... args) {"@);
    assert(BOX_FROM_IMPL@.subrange(173, 187) =~= "dynamic_cast< "@);
    assert(BOX_FROM_IMPL@.subrange(189, 206) =~= "*>(__zngur_data);"@);
    assert(BOX_FROM_IMPL@.subrange(272, 375) =~= " (\n        reinterpret_cast<uint8_t*>(data_as_impl),\n        [](uint8_t *d) { delete reinterpret_cast< "@);
    assert(BOX_FROM_IMPL@.subrange(377, 386) =~= "*>(d); },"@);
}

proof fn lemma_box_from_impl_0(args: Seq<Seq<char>>)
    requires
        args.len() == 4,
    ensures
        filled_from(BOX_FROM_IMPL@, args, 49) == (args[0] + " "@ + args[0] + "::make_box(Args&&... args) {"@) + filled_from(BOX_FROM_IMPL@, args, 82),
{
    lemma_box_from_impl_template();
    let t = BOX_FROM_IMPL@;
    assert(filled_from(t, args, 49) == args[0] + filled_from(t, args, 51));
    lemma_filled_literal(t, args, 51, " "@);
    assert(filled_from(t, args, 52) == args[0] + filled_from(t, args, 54));
    lemma_filled_literal(t, args, 54, "::make_box(Args&&... args) {"@);
    lemma_regroup(args[0], " "@, filled_from(t, args, 52));
    lemma_regroup(args[0] + " "@, args[0], filled_from(t, args, 54));
    lemma_regroup(args[0] + " "@ + args[0], "::make_box(Args&&... args) {"@, filled_from(t, args, 82));
}

proof fn lemma_box_from_impl_1(args: Seq<Seq<char>>)
    requires
        args.len() == 4,
    ensures
        filled_from(BOX_FROM_IMPL@, args, 173) == ("dynamic_cast< "@ + args[1] + "*>(__zngur_data);"@) + filled_from(BOX_FROM_IMPL@, args, 206),
{
    lemma_box_from_impl_template();
    let t = BOX_FROM_IMPL@;
    lemma_filled_literal(t, args, 173, "dynamic_cast< "@);
    assert(filled_from(t, args, 187) == args[1] + filled_from(t, args, 189));
    lemma_filled_literal(t, args, 189, "*>(__zngur_data);"@);
    lemma_regroup("dynamic_cast< "@, args[1], filled_from(t, args, 189));
    lemma_regroup("dynamic_cast< "@ + args[1], "*>(__zngur_data);"@, filled_from(t, args, 206));
}

proof fn lemma_box_from_impl_2(args: Seq<Seq<char>>)
    requires
        args.len() == 4,
    ensures
        filled_from(BOX_FROM_IMPL@, args, 270) == (args[3] + " (\n        reinterpret_cast<uint8_t*>(data_as_impl),\n        [](uint8_t *d) { delete reinterpret_cast< "@ + args[1] + "*>(d); },"@) + filled_from(BOX_FROM_IMPL@, args, 386),
{
    lemma_box_from_impl_template();
    let t = BOX_FROM_IMPL@;
    assert(filled_from(t, args, 270) == args[3] + filled_from(t, args, 272));
    lemma_filled_literal(t, args, 272, " (\n        reinterpret_cast<uint8_t*>(data_as_impl),\n        [](uint8_t *d) { delete reinterpret_cast< "@);
    assert(filled_from(t, args, 375) == args[1] + filled_from(t, args, 377));
    lemma_filled_literal(t, args, 377, "*>(d); },"@);
    lemma_regroup(args[3], " (\n        reinterpret_cast<uint8_t*>(data_as_impl),\n        [](uint8_t *d) { delete reinterpret_cast< "@, filled_from(t, args, 375));
    lemma_regroup(args[3] + " (\n        reinterpret_cast<uint8_t*>(data_as_impl),\n        [](uint8_t *d) { delete reinterpret_cast< "@, args[1], filled_from(t, args, 377));
    lemma_regroup(args[3] + " (\n        reinterpret_cast<uint8_t*>(data_as_impl),\n        [](uint8_t *d) { delete reinterpret_cast< "@ + args[1], "*>(d); },"@, filled_from(t, args, 386));
}

/// What `BOX_FROM_IMPL` gives holds what is filled in, in its places.
pub proof fn lemma_box_from_impl(args: Seq<Seq<char>>)
    requires
        args.len() == 4,
    ensures
        holds(filled(BOX_FROM_IMPL@, args), seq![args[0] + " "@ + args[0] + "::make_box(Args&&... args) {"@, "dynamic_cast< "@ + args[1] + "*>(__zngur_data);"@, args[3] + " (\n        reinterpret_cast<uint8_t*>(data_as_impl),\n        [](uint8_t *d) { delete reinterpret_cast< "@ + args[1] + "*>(d); },"@]),
{
    lemma_box_from_impl_template();
    let t = BOX_FROM_IMPL@;
    let parts = seq![args[0] + " "@ + args[0] + "::make_box(Args&&... args) {"@, "dynamic_cast< "@ + args[1] + "*>(__zngur_data);"@, args[3] + " (\n        reinterpret_cast<uint8_t*>(data_as_impl),\n        [](uint8_t *d) { delete reinterpret_cast< "@ + args[1] + "*>(d); },"@];
    lemma_holds_nothing(filled_from(t, args, 386), parts);
    lemma_box_from_impl_2(args);
    let before = lemma_filled_reaches(t, args, 206, 270);
    lemma_holds_step(filled_from(t, args, 206), before, filled_from(t, args, 386), parts, 2);
    lemma_box_from_impl_1(args);
    let before = lemma_filled_reaches(t, args, 82, 173);
    lemma_holds_step(filled_from(t, args, 82), before, filled_from(t, args, 206), parts, 1);
    lemma_box_from_impl_0(args);
    let before = lemma_filled_reaches(t, args, 0, 49);
    lemma_holds_step(filled_from(t, args, 0), before, filled_from(t, args, 82), parts, 0);
    assert(parts.skip(0) =~= parts);
}

proof fn lemma_ref_from_impl_template()
    ensures
        REF_FROM_IMPL@[7] == '$',
        REF_FROM_IMPL@[8] == '0',
        occurs_at(REF_FROM_IMPL@, "::"@, 9),
        REF_FROM_IMPL@[11] == '$',
        REF_FROM_IMPL@[12] == '1',
        occurs_at(REF_FROM_IMPL@, "< "@, 13),
        REF_FROM_IMPL@[15] == '$',
        REF_FROM_IMPL@[16] == '2',
        occurs_at(REF_FROM_IMPL@, " >::"@, 17),
        REF_FROM_IMPL@[21] == '$',
        REF_FROM_IMPL@[22] == '1',
        occurs_at(REF_FROM_IMPL@, "("@, 23),
        REF_FROM_IMPL@[24] == '$',
        REF_FROM_IMPL@[25] == '3',
        occurs_at(REF_FROM_IMPL@, "& args) {"@, 26),
        REF_FROM_IMPL@[130] == '$',
        REF_FROM_IMPL@[131] == '4',
        occurs_at(REF_FROM_IMPL@, "(\n          (uint8_t *)data_as_impl,"@, 132),
        "::"@.len() == 2,
        !"::"@.contains('$'),
        "< "@.len() == 2,
        !"< "@.contains('$'),
        " >::"@.len() == 4,
        !" >::"@.contains('$'),
        "("@.len() == 1,
        !"("@.contains('$'),
        "& args) {"@.len() == 9,
        !"& args) {"@.contains('$'),
        "(\n          (uint8_t *)data_as_impl,"@.len() == 36,
        !"(\n          (uint8_t *)data_as_impl,"@.contains('$'),
        REF_FROM_IMPL@.len() == 237,
{
    reveal_strlit(r#"
      $0::$1< $2 >::$1($3& args) {
        auto data_as_impl = &args;
        ::$0::__zngur_internal_assume_init(*this);
        $4(
          (uint8_t *)data_as_impl,
          ::$0::__zngur_internal_data_ptr(*this)
        );
      }
"#);
    reveal_strlit("::");
    reveal_strlit("< ");
    reveal_strlit(" >::");
    reveal_strlit("(");
    reveal_strlit("& args) {");
    reveal_strlit("(\n          (uint8_t *)data_as_impl,");
    assert(REF_FROM_IMPL@.subrange(9, 11) =~= "::"@);
    assert(REF_FROM_IMPL@.subrange(13, 15) =~= "< "@);
    assert(REF_FROM_IMPL@.subrange(17, 21) =~= " >::"@);
    assert(REF_FROM_IMPL@.subrange(23, 24) =~= "("@);
    assert(REF_FROM_IMPL@.subrange(26, 35) =~= "& args) {"@);
    assert(REF_FROM_IMPL@.subrange(132, 168) =~= "(\n          (uint8_t *)data_as_impl,"@);
}

proof fn lemma_ref_from_impl_0(args: Seq<Seq<char>>)
    requires
        args.len() == 5,
    ensures
        filled_from(REF_FROM_IMPL@, args, 7) == (args[0] + "::"@ + args[1] + "< "@ + args[2] + " >::"@ + args[1] + "("@ + args[3] + "& args) {"@) + filled_from(REF_FROM_IMPL@, args, 35),
{
    lemma_ref_from_impl_template();
    let t = REF_FROM_IMPL@;
    assert(filled_from(t, args, 7) == args[0] + filled_from(t, args, 9));
    lemma_filled_literal(t, args, 9, "::"@);
    assert(filled_from(t, args, 11) == args[1] + filled_from(t, args, 13));
    lemma_filled_literal(t, args, 13, "< "@);
    assert(filled_from(t, args, 15) == args[2] + filled_from(t, args, 17));
    lemma_filled_literal(t, args, 17, " >::"@);
    assert(filled_from(t, args, 21) == args[1] + filled_from(t, args, 23));
    lemma_filled_literal(t, args, 23, "("@);
    assert(filled_from(t, args, 24) == args[3] + filled_from(t, args, 26));
    lemma_filled_literal(t, args, 26, "& args) {"@);
    lemma_regroup(args[0], "::"@, filled_from(t, args, 11));
    lemma_regroup(args[0] + "::"@, args[1], filled_from(t, args, 13));
    lemma_regroup(args[0] + "::"@ + args[1], "< "@, filled_from(t, args, 15));
    lemma_regroup(args[0] + "::"@ + args[1] + "< "@, args[2], filled_from(t, args, 17));
    lemma_regroup(args[0] + "::"@ + args[1] + "< "@ + args[2], " >::"@, filled_from(t, args, 21));
    lemma_regroup(args[0] + "::"@ + args[1] + "< "@ + args[2] + " >::"@, args[1], filled_from(t, args, 23));
    lemma_regroup(args[0] + "::"@ + args[1] + "< "@ + args[2] + " >::"@ + args[1], "("@, filled_from(t, args, 24));
    lemma_regroup(args[0] + "::"@ + args[1] + "< "@ + args[2] + " >::"@ + args[1] + "("@, args[3], filled_from(t, args, 26));
    lemma_regroup(args[0] + "::"@ + args[1] + "< "@ + args[2] + " >::"@ + args[1] + "("@ + args[3], "& args) {"@, filled_from(t, args, 35));
}

proof fn lemma_ref_from_impl_1(args: Seq<Seq<char>>)
    requires
        args.len() == 5,
    ensures
        filled_from(REF_FROM_IMPL@, args, 130) == (args[4] + "(\n          (uint8_t *)data_as_impl,"@) + filled_from(REF_FROM_IMPL@, args, 168),
{
    lemma_ref_from_impl_template();
    let t = REF_FROM_IMPL@;
    assert(filled_from(t, args, 130) == args[4] + filled_from(t, args, 132));
    lemma_filled_literal(t, args, 132, "(\n          (uint8_t *)data_as_impl,"@);
    lemma_regroup(args[4], "(\n          (uint8_t *)data_as_impl,"@, filled_from(t, args, 168));
}

/// What `REF_FROM_IMPL` gives holds what is filled in, in its places.
pub proof fn lemma_ref_from_impl(args: Seq<Seq<char>>)
    requires
        args.len() == 5,
    ensures
        holds(filled(REF_FROM_IMPL@, args), seq![args[0] + "::"@ + args[1] + "< "@ + args[2] + " >::"@ + args[1] + "("@ + args[3] + "& args) {"@, args[4] + "(\n          (uint8_t *)data_as_impl,"@]),
{
    lemma_ref_from_impl_template();
    let t = REF_FROM_IMPL@;
    let parts = seq![args[0] + "::"@ + args[1] + "< "@ + args[2] + " >::"@ + args[1] + "("@ + args[3] + "& args) {"@, args[4] + "(\n          (uint8_t *)data_as_impl,"@];
    lemma_holds_nothing(filled_from(t, args, 168), parts);
    lemma_ref_from_impl_1(args);
    let before = lemma_filled_reaches(t, args, 35, 130);
    lemma_holds_step(filled_from(t, args, 35), before, filled_from(t, args, 168), parts, 1);
    lemma_ref_from_impl_0(args);
    let before = lemma_filled_reaches(t, args, 0, 7);
    lemma_holds_step(filled_from(t, args, 0), before, filled_from(t, args, 35), parts, 0);
    assert(parts.skip(0) =~= parts);
}

proof fn lemma_impl_open_template()
    ensures
        occurs_at(IMPL_OPEN@, "class Impl< "@, 16),
        IMPL_OPEN@[28] == '$',
        IMPL_OPEN@[29] == '0',
        occurs_at(IMPL_OPEN@, ", "@, 30),
        IMPL_OPEN@[32] == '$',
        IMPL_OPEN@[33] == '1',
        occurs_at(IMPL_OPEN@, " > {\n    public:\n"@, 34),
        !is_digit(IMPL_OPEN@[16]),
        "class Impl< "@.len() == 12,
        !"class Impl< "@.contains('$'),
        ", "@.len() == 2,
        !", "@.contains('$'),
        " > {\n    public:\n"@.len() == 17,
        !" > {\n    public:\n"@.contains('$'),
        IMPL_OPEN@.len() == 51,
{
    reveal_strlit(r#"
  template<>
  class Impl< $0, $1 > {
    public:
"#);
    reveal_strlit("class Impl< ");
    reveal_strlit(", ");
    reveal_strlit(" > {\n    public:\n");
    assert(IMPL_OPEN@.subrange(16, 28) =~= "class Impl< "@);
    assert(IMPL_OPEN@.subrange(30, 32) =~= ", "@);
    assert(IMPL_OPEN@.subrange(34, 51) =~= " > {\n    public:\n"@);
}

proof fn lemma_impl_open_0(args: Seq<Seq<char>>)
    requires
        args.len() == 2,
    ensures
        filled_from(IMPL_OPEN@, args, 16) == ("class Impl< "@ + args[0] + ", "@ + args[1] + " > {\n    public:\n"@) + filled_from(IMPL_OPEN@, args, 51),
{
    lemma_impl_open_template();
    let t = IMPL_OPEN@;
    lemma_filled_literal(t, args, 16, "class Impl< "@);
    assert(filled_from(t, args, 28) == args[0] + filled_from(t, args, 30));
    lemma_filled_literal(t, args, 30, ", "@);
    assert(filled_from(t, args, 32) == args[1] + filled_from(t, args, 34));
    lemma_filled_literal(t, args, 34, " > {\n    public:\n"@);
    lemma_regroup("class Impl< "@, args[0], filled_from(t, args, 30));
    lemma_regroup("class Impl< "@ + args[0], ", "@, filled_from(t, args, 32));
    lemma_regroup("class Impl< "@ + args[0] + ", "@, args[1], filled_from(t, args, 34));
    lemma_regroup("class Impl< "@ + args[0] + ", "@ + args[1], " > {\n    public:\n"@, filled_from(t, args, 51));
}

/// What `IMPL_OPEN` gives holds what is filled in, in its places.
pub proof fn lemma_impl_open(args: Seq<Seq<char>>)
    requires
        args.len() == 2,
    ensures
        holds(filled(IMPL_OPEN@, args), seq!["class Impl< "@ + args[0] + ", "@ + args[1] + " > {\n    public:\n"@]),
{
    lemma_impl_open_template();
    let t = IMPL_OPEN@;
    let parts = seq!["class Impl< "@ + args[0] + ", "@ + args[1] + " > {\n    public:\n"@];
    lemma_holds_nothing(filled_from(t, args, 51), parts);
    lemma_impl_open_0(args);
    let before = lemma_filled_reaches(t, args, 0, 16);
    lemma_holds_step(filled_from(t, args, 0), before, filled_from(t, args, 51), parts, 0);
    assert(parts.skip(0) =~= parts);
}

proof fn lemma_impl_method_template()
    ensures
        occurs_at(IMPL_METHOD@, "static "@, 9),
        IMPL_METHOD@[16] == '$',
        IMPL_METHOD@[17] == '0',
        occurs_at(IMPL_METHOD@, " "@, 18),
        IMPL_METHOD@[19] == '$',
        IMPL_METHOD@[20] == '1',
        occurs_at(IMPL_METHOD@, "(\n          "@, 21),
        IMPL_METHOD@[33] == '$',
        IMPL_METHOD@[34] == '2',
        occurs_at(IMPL_METHOD@, "\n        );"@, 35),
        !is_digit(IMPL_METHOD@[9]),
        "static "@.len() == 7,
        !"static "@.contains('$'),
        " "@.len() == 1,
        !" "@.contains('$'),
        "(\n          "@.len() == 12,
        !"(\n          "@.contains('$'),
        "\n        );"@.len() == 11,
        !"\n        );"@.contains('$'),
        IMPL_METHOD@.len() == 47,
{
    reveal_strlit(r#"
        static $0 $1(
          $2
        );
"#);
    reveal_strlit("static ");
    reveal_strlit(" ");
    reveal_strlit("(\n          ");
    reveal_strlit("\n        );");
    assert(IMPL_METHOD@.subrange(9, 16) =~= "static "@);
    assert(IMPL_METHOD@.subrange(18, 19) =~= " "@);
    assert(IMPL_METHOD@.subrange(21, 33) =~= "(\n          "@);
    assert(IMPL_METHOD@.subrange(35, 46) =~= "\n        );"@);
}

proof fn lemma_impl_method_0(args: Seq<Seq<char>>)
    requires
        args.len() == 3,
    ensures
        filled_from(IMPL_METHOD@, args, 9) == ("static "@ + args[0] + " "@ + args[1] + "(\n          "@ + args[2] + "\n        );"@) + filled_from(IMPL_METHOD@, args, 46),
{
    lemma_impl_method_template();
    let t = IMPL_METHOD@;
    lemma_filled_literal(t, args, 9, "static "@);
    assert(filled_from(t, args, 16) == args[0] + filled_from(t, args, 18));
    lemma_filled_literal(t, args, 18, " "@);
    assert(filled_from(t, args, 19) == args[1] + filled_from(t, args, 21));
    lemma_filled_literal(t, args, 21, "(\n          "@);
    assert(filled_from(t, args, 33) == args[2] + filled_from(t, args, 35));
    lemma_filled_literal(t, args, 35, "\n        );"@);
    lemma_regroup("static "@, args[0], filled_from(t, args, 18));
    lemma_regroup("static "@ + args[0], " "@, filled_from(t, args, 19));
    lemma_regroup("static "@ + args[0] + " "@, args[1], filled_from(t, args, 21));
    lemma_regroup("static "@ + args[0] + " "@ + args[1], "(\n          "@, filled_from(t, args, 33));
    lemma_regroup("static "@ + args[0] + " "@ + args[1] + "(\n          "@, args[2], filled_from(t, args, 35));
    lemma_regroup("static "@ + args[0] + " "@ + args[1] + "(\n          "@ + args[2], "\n        );"@, filled_from(t, args, 46));
}

/// What `IMPL_METHOD` gives holds what is filled in, in its places.
pub proof fn lemma_impl_method(args: Seq<Seq<char>>)
    requires
        args.len() == 3,
    ensures
        holds(filled(IMPL_METHOD@, args), seq!["static "@ + args[0] + " "@ + args[1] + "(\n          "@ + args[2] + "\n        );"@]),
{
    lemma_impl_method_template();
    let t = IMPL_METHOD@;
    let parts = seq!["static "@ + args[0] + " "@ + args[1] + "(\n          "@ + args[2] + "\n        );"@];
    lemma_holds_nothing(filled_from(t, args, 46), parts);
    lemma_impl_method_0(args);
    let before = lemma_filled_reaches(t, args, 0, 9);
    lemma_holds_step(filled_from(t, args, 0), before, filled_from(t, args, 46), parts, 0);
    assert(parts.skip(0) =~= parts);
}

} // verus!
