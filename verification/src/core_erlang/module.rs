//! Core Erlang modules and a builder for them.

use crate::core_erlang::expr::Expr;
use crate::core_erlang::primitives::{FunctionName, Literal};
use vstd::prelude::*;

verus! {

#[derive(Debug, PartialEq)]
pub struct LocalFunctionDef {
    pub name: FunctionName,
    pub fun: Expr,
}

#[derive(Debug, PartialEq)]
pub struct Attribute {
    pub name: String,
    pub value: Literal,
}

#[derive(Debug, PartialEq)]
pub struct Module {
    pub name: String,
    pub exports: Vec<FunctionName>,
    pub attributes: Vec<Attribute>,
    pub functions: Vec<LocalFunctionDef>,
}

impl Module {
    /// A builder for a module named `name`, with no exports, attributes or
    /// functions yet.
    pub fn builder(name: &str) -> (r: ModuleBuilder)
        ensures
            r.spec_name() == name@,
            r.spec_exports().len() == 0,
            r.spec_attributes().len() == 0,
            r.spec_functions().len() == 0,
    {
        ModuleBuilder {
            name: name.to_owned(),
            exports: Vec::new(),
            attributes: Vec::new(),
            functions: Vec::new(),
        }
    }
}

/// A call on a module builder, with its arguments as plain values.
pub ghost enum BuilderCall {
    Export(Seq<char>, usize),
    Attribute(Seq<char>, Literal),
    Function(Seq<char>, usize, Expr),
    FunctionAndExport(Seq<char>, usize, Expr),
}

/// The exports that the calls make, in order.
pub open spec fn exports_of(calls: Seq<BuilderCall>) -> Seq<(Seq<char>, usize)>
    decreases calls.len(),
{
    if calls.len() == 0 {
        Seq::empty()
    } else {
        exports_of(calls.drop_last()) + match calls.last() {
            BuilderCall::Export(name, arity) => seq![(name, arity)],
            BuilderCall::FunctionAndExport(name, arity, _) => seq![(name, arity)],
            _ => Seq::empty(),
        }
    }
}

/// The attributes that the calls set, in order.
pub open spec fn attributes_of(calls: Seq<BuilderCall>) -> Seq<(Seq<char>, Literal)>
    decreases calls.len(),
{
    if calls.len() == 0 {
        Seq::empty()
    } else {
        attributes_of(calls.drop_last()) + match calls.last() {
            BuilderCall::Attribute(name, value) => seq![(name, value)],
            _ => Seq::empty(),
        }
    }
}

/// The functions that the calls define, in order.
pub open spec fn functions_of(calls: Seq<BuilderCall>) -> Seq<(Seq<char>, usize, Expr)>
    decreases calls.len(),
{
    if calls.len() == 0 {
        Seq::empty()
    } else {
        functions_of(calls.drop_last()) + match calls.last() {
            BuilderCall::Function(name, arity, body) => seq![(name, arity, body)],
            BuilderCall::FunctionAndExport(name, arity, body) => seq![(name, arity, body)],
            _ => Seq::empty(),
        }
    }
}

/// Collects the parts of a module, in the order they are given.
pub struct ModuleBuilder {
    name: String,
    exports: Vec<FunctionName>,
    attributes: Vec<Attribute>,
    functions: Vec<LocalFunctionDef>,
}

impl ModuleBuilder {
    pub closed spec fn spec_name(&self) -> Seq<char> {
        self.name@
    }

    pub closed spec fn spec_exports(&self) -> Seq<FunctionName> {
        self.exports@
    }

    pub closed spec fn spec_attributes(&self) -> Seq<Attribute> {
        self.attributes@
    }

    pub closed spec fn spec_functions(&self) -> Seq<LocalFunctionDef> {
        self.functions@
    }

    /// The exports, each as its name and arity.
    pub open spec fn export_list(&self) -> Seq<(Seq<char>, usize)> {
        Seq::new(self.spec_exports().len(), |i: int| (self.spec_exports()[i].name@, self.spec_exports()[i].arity))
    }

    /// The attributes, each as its name and value.
    pub open spec fn attribute_list(&self) -> Seq<(Seq<char>, Literal)> {
        Seq::new(
            self.spec_attributes().len(),
            |i: int| (self.spec_attributes()[i].name@, self.spec_attributes()[i].value),
        )
    }

    /// The functions, each as its name, arity and body.
    pub open spec fn function_list(&self) -> Seq<(Seq<char>, usize, Expr)> {
        Seq::new(
            self.spec_functions().len(),
            |i: int|
                (
                    self.spec_functions()[i].name.name@,
                    self.spec_functions()[i].name.arity,
                    self.spec_functions()[i].fun,
                ),
        )
    }

    /// `after` is `before` with `call` made on it.
    pub open spec fn made(before: ModuleBuilder, call: BuilderCall, after: ModuleBuilder) -> bool {
        &&& after.spec_name() == before.spec_name()
        &&& after.export_list() == before.export_list() + match call {
            BuilderCall::Export(name, arity) => seq![(name, arity)],
            BuilderCall::FunctionAndExport(name, arity, _) => seq![(name, arity)],
            _ => Seq::empty(),
        }
        &&& after.attribute_list() == before.attribute_list() + match call {
            BuilderCall::Attribute(name, value) => seq![(name, value)],
            _ => Seq::empty(),
        }
        &&& after.function_list() == before.function_list() + match call {
            BuilderCall::Function(name, arity, body) => seq![(name, arity, body)],
            BuilderCall::FunctionAndExport(name, arity, body) => seq![(name, arity, body)],
            _ => Seq::empty(),
        }
    }

    /// Adds `name/arity` to the exports.
    pub fn export(self, name: &str, arity: usize) -> (r: Self)
        ensures
            r.spec_name() == self.spec_name(),
            r.spec_exports().len() == self.spec_exports().len() + 1,
            r.spec_exports().drop_last() == self.spec_exports(),
            r.spec_exports().last().name@ == name@,
            r.spec_exports().last().arity == arity,
            r.spec_attributes() == self.spec_attributes(),
            r.spec_functions() == self.spec_functions(),
            ModuleBuilder::made(self, BuilderCall::Export(name@, arity), r),
    {
        let mut this = self;
        this.exports.push(FunctionName { name: name.to_owned(), arity });
        proof {
            assert(this.exports@.drop_last() =~= self.exports@);
            assert(this.export_list() =~= self.export_list() + seq![(name@, arity)]);
            assert(this.attribute_list() =~= self.attribute_list() + Seq::empty());
            assert(this.function_list() =~= self.function_list() + Seq::empty());
        }
        this
    }

    /// Adds the attribute `name = value`.
    pub fn attribute(self, name: &str, value: Literal) -> (r: Self)
        ensures
            r.spec_name() == self.spec_name(),
            r.spec_exports() == self.spec_exports(),
            r.spec_attributes().len() == self.spec_attributes().len() + 1,
            r.spec_attributes().drop_last() == self.spec_attributes(),
            r.spec_attributes().last().name@ == name@,
            r.spec_attributes().last().value == value,
            r.spec_functions() == self.spec_functions(),
            ModuleBuilder::made(self, BuilderCall::Attribute(name@, value), r),
    {
        let ghost value_copy = value;
        let mut this = self;
        this.attributes.push(Attribute { name: name.to_owned(), value });
        proof {
            assert(this.attributes@.drop_last() =~= self.attributes@);
            assert(this.export_list() =~= self.export_list() + Seq::empty());
            assert(this.attribute_list() =~= self.attribute_list() + seq![(name@, value_copy)]);
            assert(this.function_list() =~= self.function_list() + Seq::empty());
        }
        this
    }

    /// Adds the definition of `name/arity` as `body`.
    pub fn function(self, name: &str, arity: usize, body: Expr) -> (r: Self)
        ensures
            r.spec_name() == self.spec_name(),
            r.spec_exports() == self.spec_exports(),
            r.spec_attributes() == self.spec_attributes(),
            r.spec_functions().len() == self.spec_functions().len() + 1,
            r.spec_functions().drop_last() == self.spec_functions(),
            r.spec_functions().last().name.name@ == name@,
            r.spec_functions().last().name.arity == arity,
            r.spec_functions().last().fun == body,
            ModuleBuilder::made(self, BuilderCall::Function(name@, arity, body), r),
    {
        let ghost body_copy = body;
        let mut this = self;
        this.functions.push(
            LocalFunctionDef { name: FunctionName { name: name.to_owned(), arity }, fun: body },
        );
        proof {
            assert(this.functions@.drop_last() =~= self.functions@);
            assert(this.export_list() =~= self.export_list() + Seq::empty());
            assert(this.attribute_list() =~= self.attribute_list() + Seq::empty());
            assert(this.function_list() =~= self.function_list() + seq![(name@, arity, body_copy)]);
        }
        this
    }

    /// Exports `name/arity` and defines it as `body`.
    pub fn function_and_export(self, name: &str, arity: usize, body: Expr) -> (r: Self)
        ensures
            r.spec_name() == self.spec_name(),
            r.spec_exports().len() == self.spec_exports().len() + 1,
            r.spec_exports().drop_last() == self.spec_exports(),
            r.spec_exports().last().name@ == name@,
            r.spec_exports().last().arity == arity,
            r.spec_attributes() == self.spec_attributes(),
            r.spec_functions().len() == self.spec_functions().len() + 1,
            r.spec_functions().drop_last() == self.spec_functions(),
            r.spec_functions().last().name.name@ == name@,
            r.spec_functions().last().name.arity == arity,
            r.spec_functions().last().fun == body,
            ModuleBuilder::made(self, BuilderCall::FunctionAndExport(name@, arity, body), r),
    {
        let ghost body_copy = body;
        let exported = self.export(name, arity);
        let r = exported.function(name, arity, body);
        proof {
            assert(r.export_list() =~= self.export_list() + seq![(name@, arity)]);
            assert(r.attribute_list() =~= self.attribute_list() + Seq::empty());
            assert(r.function_list() =~= self.function_list() + seq![(name@, arity, body_copy)]);
        }
        r
    }

    /// The module with everything collected, in order.
    pub fn build(self) -> (r: Module)
        ensures
            r.name@ == self.spec_name(),
            r.exports@ == self.spec_exports(),
            r.attributes@ == self.spec_attributes(),
            r.functions@ == self.spec_functions(),
    {
        Module {
            name: self.name,
            exports: self.exports,
            attributes: self.attributes,
            functions: self.functions,
        }
    }
}

/// Whatever calls are made on a new builder, in whatever order, the module
/// that it builds has its name, and exactly the exports, attributes and
/// functions that the calls gave, each kind in the order of the calls
/// (`function_and_export` counting as an export and a function).
pub proof fn law_module_builder(steps: Seq<ModuleBuilder>, calls: Seq<BuilderCall>)
    requires
        steps.len() == calls.len() + 1,
        steps[0].export_list().len() == 0,
        steps[0].attribute_list().len() == 0,
        steps[0].function_list().len() == 0,
        forall|i: int| 0 <= i < calls.len() ==> ModuleBuilder::made(#[trigger] steps[i], calls[i], steps[i + 1]),
    ensures
        steps.last().spec_name() == steps[0].spec_name(),
        steps.last().export_list() == exports_of(calls),
        steps.last().attribute_list() == attributes_of(calls),
        steps.last().function_list() == functions_of(calls),
    decreases calls.len(),
{
    if calls.len() == 0 {
        assert(steps[0].export_list() =~= Seq::<(Seq<char>, usize)>::empty());
        assert(steps[0].attribute_list() =~= Seq::<(Seq<char>, Literal)>::empty());
        assert(steps[0].function_list() =~= Seq::<(Seq<char>, usize, Expr)>::empty());
    } else {
        let n = calls.len() - 1;
        assert forall|i: int| 0 <= i < calls.drop_last().len() implies ModuleBuilder::made(
            #[trigger] steps.drop_last()[i],
            calls.drop_last()[i],
            steps.drop_last()[i + 1],
        ) by {
            assert(ModuleBuilder::made(steps[i], calls[i], steps[i + 1]));
        }
        law_module_builder(steps.drop_last(), calls.drop_last());
        assert(ModuleBuilder::made(steps[n], calls[n], steps[n + 1]));
    }
}

impl Module {
    /// The exports, each as its name and arity.
    pub open spec fn export_list(&self) -> Seq<(Seq<char>, usize)> {
        Seq::new(self.exports@.len(), |i: int| (self.exports@[i].name@, self.exports@[i].arity))
    }

    /// The attributes, each as its name and value.
    pub open spec fn attribute_list(&self) -> Seq<(Seq<char>, Literal)> {
        Seq::new(self.attributes@.len(), |i: int| (self.attributes@[i].name@, self.attributes@[i].value))
    }

    /// The functions, each as its name, arity and body.
    pub open spec fn function_list(&self) -> Seq<(Seq<char>, usize, Expr)> {
        Seq::new(
            self.functions@.len(),
            |i: int| (self.functions@[i].name.name@, self.functions@[i].name.arity, self.functions@[i].fun),
        )
    }
}

/// The module that `Module::builder(name)` builds after any sequence of
/// calls has that name, and exactly the exports, attributes and functions
/// that the calls gave, each kind in the order of the calls
/// (`function_and_export` counting as an export, then a function).
pub proof fn law_module_built(name: Seq<char>, steps: Seq<ModuleBuilder>, calls: Seq<BuilderCall>, module: Module)
    requires
        steps.len() == calls.len() + 1,
        steps[0].spec_name() == name,
        steps[0].spec_exports().len() == 0,
        steps[0].spec_attributes().len() == 0,
        steps[0].spec_functions().len() == 0,
        forall|i: int| 0 <= i < calls.len() ==> ModuleBuilder::made(#[trigger] steps[i], calls[i], steps[i + 1]),
        module.name@ == steps.last().spec_name(),
        module.exports@ == steps.last().spec_exports(),
        module.attributes@ == steps.last().spec_attributes(),
        module.functions@ == steps.last().spec_functions(),
    ensures
        module.name@ == name,
        module.export_list() == exports_of(calls),
        module.attribute_list() == attributes_of(calls),
        module.function_list() == functions_of(calls),
{
    law_module_builder(steps, calls);
    assert(module.export_list() =~= steps.last().export_list());
    assert(module.attribute_list() =~= steps.last().attribute_list());
    assert(module.function_list() =~= steps.last().function_list());
}

} // verus!
