//! The heap: environments, functions, classes and instances.
//!
//! Each kind of object lives in a vector of its own, and a value names an
//! object by its index there. Nothing is ever taken out, so a handle that
//! was valid stays valid.

use vstd::prelude::*;
use vstd::hash_map::StringHashMap;
use vstd::string::StringExecFns;
use crate::token::Token;
use crate::ast::FunctionStatement;
use crate::value::{LiteralValue, ValueView, display_text};
use crate::environment;
use crate::environment::{Environment, EnvironmentView, environments_view, chained};

verus! {

/// A function value: its declaration, the environment it was made in, and
/// whether it is an initializer.
#[derive(Clone, Copy)]
pub struct LoxFunction<'a> {
    pub declaration: &'a FunctionStatement,
    pub closure: usize,
    pub is_initializer: bool,
}

/// The mathematical view of a function value.
pub struct FunctionModel {
    pub declaration: FunctionStatement,
    pub closure: usize,
    pub is_initializer: bool,
}

impl<'a> View for LoxFunction<'a> {
    type V = FunctionModel;

    open spec fn view(&self) -> FunctionModel {
        FunctionModel {
            declaration: *self.declaration,
            closure: self.closure,
            is_initializer: self.is_initializer,
        }
    }
}

/// A class: its name, its own methods and its superclass.
pub struct LoxClass<'a> {
    pub name: String,
    pub methods: StringHashMap<LoxFunction<'a>>,
    pub superclass: Option<usize>,
}

/// The mathematical view of a class.
pub struct ClassView {
    pub name: Seq<char>,
    pub methods: Map<Seq<char>, FunctionModel>,
    pub superclass: Option<usize>,
}

impl<'a> View for LoxClass<'a> {
    type V = ClassView;

    open spec fn view(&self) -> ClassView {
        ClassView {
            name: self.name@,
            methods: Map::new(
                |k: Seq<char>| self.methods@.contains_key(k),
                |k: Seq<char>| self.methods@[k]@,
            ),
            superclass: self.superclass,
        }
    }
}

/// An instance: its class and its fields.
pub struct LoxInstance {
    pub klass: usize,
    pub fields: StringHashMap<LiteralValue>,
}

/// The mathematical view of an instance.
pub struct InstanceView {
    pub klass: usize,
    pub fields: Map<Seq<char>, ValueView>,
}

impl View for LoxInstance {
    type V = InstanceView;

    open spec fn view(&self) -> InstanceView {
        InstanceView {
            klass: self.klass,
            fields: Map::new(
                |k: Seq<char>| self.fields@.contains_key(k),
                |k: Seq<char>| self.fields@[k]@,
            ),
        }
    }
}

/// The heap.
pub struct Heap<'a> {
    pub environments: Vec<Environment>,
    pub functions: Vec<LoxFunction<'a>>,
    pub classes: Vec<LoxClass<'a>>,
    pub instances: Vec<LoxInstance>,
}

/// The mathematical view of the heap.
pub struct HeapView {
    pub environments: Seq<EnvironmentView>,
    pub functions: Seq<FunctionModel>,
    pub classes: Seq<ClassView>,
    pub instances: Seq<InstanceView>,
}

impl<'a> View for Heap<'a> {
    type V = HeapView;

    open spec fn view(&self) -> HeapView {
        HeapView {
            environments: environments_view(self.environments@),
            functions: Seq::new(self.functions@.len(), |i: int| self.functions@[i]@),
            classes: classes_view(self.classes@),
            instances: Seq::new(self.instances@.len(), |i: int| self.instances@[i]@),
        }
    }
}

/// The invariant of a sequence of classes: every superclass stands in front
/// of its subclasses.
pub open spec fn rooted(classes: Seq<ClassView>) -> bool {
    forall|c: int|
        0 <= c < classes.len() ==> match (#[trigger] classes[c]).superclass {
            Some(parent) => parent < c,
            None => true,
        }
}

/// The views of the classes of a vector, in order.
pub open spec fn classes_view<'a>(classes: Seq<LoxClass<'a>>) -> Seq<ClassView> {
    Seq::new(classes.len(), |i: int| classes[i]@)
}

/// The invariant of the heap: no chain of environments or of superclasses
/// runs in a circle, and every object names only objects that exist.
pub open spec fn well_formed(h: HeapView) -> bool {
    &&& chained(h.environments)
    &&& forall|f: int|
        0 <= f < h.functions.len() ==> (#[trigger] h.functions[f]).closure < h.environments.len()
    &&& rooted(h.classes)
    &&& forall|c: int, k: Seq<char>|
        0 <= c < h.classes.len() && (#[trigger] h.classes[c].methods.contains_key(k))
            ==> h.classes[c].methods[k].closure < h.environments.len()
    &&& forall|i: int|
        0 <= i < h.instances.len() ==> (#[trigger] h.instances[i]).klass < h.classes.len()
}

/// The method of a name in a class or, failing that, in the nearest of its
/// superclasses that has one.
pub open spec fn find_method(
    classes: Seq<ClassView>,
    class: int,
    name: Seq<char>,
) -> Option<FunctionModel>
    decreases class,
{
    if class < 0 || class >= classes.len() {
        None
    } else if classes[class].methods.contains_key(name) {
        Some(classes[class].methods[name])
    } else {
        match classes[class].superclass {
            Some(parent) => if parent < class {
                find_method(classes, parent as int, name)
            } else {
                None
            },
            None => None,
        }
    }
}

/// A method bound to an instance: the same function in a fresh environment
/// that holds `this`, below the method's own.
pub open spec fn bind(
    environments: Seq<EnvironmentView>,
    method: FunctionModel,
    instance: usize,
) -> (Seq<EnvironmentView>, FunctionModel) {
    (
        environment::define(
            environment::extend(environments, Some(method.closure)),
            environments.len() as int,
            "this"@,
            ValueView::Instance(instance),
        ),
        FunctionModel { closure: environments.len() as usize, ..method }
    )
}

/// A property of an instance: the field of that name or, failing that, the
/// method of that name, bound to the instance and added to the heap as a
/// new function.
pub open spec fn property(
    h: HeapView,
    instance: int,
    name: Seq<char>,
) -> Option<(HeapView, ValueView)> {
    if h.instances[instance].fields.contains_key(name) {
        Some((h, h.instances[instance].fields[name]))
    } else {
        match find_method(h.classes, h.instances[instance].klass as int, name) {
            Some(method) => {
                let (environments, bound) = bind(h.environments, method, instance as usize);
                Some(
                    (
                        HeapView { environments, functions: h.functions.push(bound), ..h },
                        ValueView::Function(h.functions.len() as usize),
                    ),
                )
            },
            None => None,
        }
    }
}

/// The heap after a field of an instance was written.
pub open spec fn write_field(
    h: HeapView,
    instance: int,
    name: Seq<char>,
    value: ValueView,
) -> HeapView {
    HeapView {
        instances: h.instances.update(
            instance,
            InstanceView {
                klass: h.instances[instance].klass,
                fields: h.instances[instance].fields.insert(name, value),
            },
        ),
        ..h
    }
}

/// The text by which a value is displayed: a function shows its name, a
/// class its name, an instance the name of its class.
pub open spec fn describe(h: HeapView, value: ValueView) -> Seq<char> {
    match value {
        ValueView::Function(f) => if f < h.functions.len() {
            "<fn "@ + h.functions[f as int].declaration.name.token_value@ + ">"@
        } else {
            display_text(value)
        },
        ValueView::LoxClass(c) => if c < h.classes.len() {
            h.classes[c as int].name
        } else {
            display_text(value)
        },
        ValueView::Instance(i) => if i < h.instances.len() && h.instances[i as int].klass
            < h.classes.len() {
            h.classes[h.instances[i as int].klass as int].name + " instance"@
        } else {
            display_text(value)
        },
        _ => display_text(value),
    }
}

/// The text that `print` writes for a value: a number as it stands, every
/// other value as it is displayed.
pub open spec fn printed(h: HeapView, value: ValueView) -> Seq<char> {
    match value {
        ValueView::Number(n) => n,
        _ => describe(h, value),
    }
}

impl<'a> LoxFunction<'a> {
    /// Bind the method to an instance: the same function in a fresh
    /// environment that holds `this`, below the method's own.
    pub fn bind(&self, environments: &mut Vec<Environment>, instance: usize) -> (r: LoxFunction<'a>)
        requires
            chained(environments_view(old(environments)@)),
            self.closure < old(environments)@.len(),
        ensures
            (environments_view(final(environments)@), r@) == bind(
                environments_view(old(environments)@),
                self@,
                instance,
            ),
            chained(environments_view(final(environments)@)),
            final(environments)@.len() == old(environments)@.len() + 1,
            r.closure == old(environments)@.len(),
    {
        let at = environments.len();
        let mut scope = Environment::new(Some(self.closure));
        scope.define("this".to_owned(), LiteralValue::Instance(instance));
        environments.push(scope);
        assert(environments_view(environments@) =~= bind(
            environments_view(old(environments)@),
            self@,
            instance,
        ).0);
        LoxFunction { declaration: self.declaration, closure: at, is_initializer: self.is_initializer }
    }
}

impl<'a> LoxClass<'a> {
    /// The method of a name in the class at `class` or, failing that, in
    /// the nearest of its superclasses that has one.
    pub fn find_method(
        classes: &Vec<LoxClass<'a>>,
        class: usize,
        name: &str,
    ) -> (r: Option<LoxFunction<'a>>)
        requires
            rooted(classes_view(classes@)),
            class < classes@.len(),
        ensures
            match r {
                Some(f) => Some(f@),
                None => None,
            } == find_method(classes_view(classes@), class as int, name@),
    {
        let ghost views = classes_view(classes@);
        let mut at = class;
        loop
            invariant
                at < classes@.len(),
                views == classes_view(classes@),
                rooted(views),
                find_method(views, class as int, name@) == find_method(views, at as int, name@),
            decreases at,
        {
            assert(views[at as int] == classes@[at as int]@);
            match classes[at].methods.get(name) {
                Some(method) => {
                    return Some(*method);
                },
                None => {},
            }
            match classes[at].superclass {
                Some(parent) => {
                    at = parent;
                },
                None => {
                    return None;
                },
            }
        }
    }
}

/// A method that is found in a well-formed heap has a closure that exists.
pub proof fn found_method_fits(h: HeapView, class: int, name: Seq<char>)
    requires
        well_formed(h),
    ensures
        match find_method(h.classes, class, name) {
            Some(f) => f.closure < h.environments.len(),
            None => true,
        },
    decreases class,
{
    if 0 <= class < h.classes.len() && !h.classes[class].methods.contains_key(name) {
        match h.classes[class].superclass {
            Some(parent) => {
                if parent < class {
                    found_method_fits(h, parent as int, name);
                }
            },
            None => {},
        }
    }
}

/// Reading and writing the properties of an instance.
pub trait LoxInstanceExt {
    /// The heap that the instance lives in.
    spec fn heap(&self) -> HeapView;

    /// The property of a name: the field or, failing that, the method,
    /// bound to the instance.
    fn get(&mut self, instance: usize, token: &Token) -> (r: Option<LiteralValue>)
        requires
            well_formed(old(self).heap()),
            instance < old(self).heap().instances.len(),
        ensures
            well_formed(final(self).heap()),
            final(self).heap().environments.len() >= old(self).heap().environments.len(),
            match r {
                Some(value) => property(old(self).heap(), instance as int, token.token_value@)
                    == Some((final(self).heap(), value@)),
                None => property(old(self).heap(), instance as int, token.token_value@) is None
                    && final(self).heap() == old(self).heap(),
            },
    ;

    /// Write a field, whether it was there before or not.
    fn set(&mut self, instance: usize, token: &Token, value: LiteralValue)
        requires
            well_formed(old(self).heap()),
            instance < old(self).heap().instances.len(),
        ensures
            well_formed(final(self).heap()),
            final(self).heap() == write_field(
                old(self).heap(),
                instance as int,
                token.token_value@,
                value@,
            ),
    ;
}

impl<'a> Heap<'a> {
    /// A heap with one environment, empty and without a parent: the
    /// globals.
    pub fn new() -> (r: Heap<'a>)
        ensures
            well_formed(r@),
            r@.environments == seq![EnvironmentView { values: Map::empty(), enclosing: None }],
            r@.functions.len() == 0,
            r@.classes.len() == 0,
            r@.instances.len() == 0,
    {
        let mut environments: Vec<Environment> = Vec::new();
        environments.push(Environment::new(None));
        let r = Heap {
            environments,
            functions: Vec::new(),
            classes: Vec::new(),
            instances: Vec::new(),
        };
        assert(r@.environments =~= seq![EnvironmentView { values: Map::empty(), enclosing: None }]);
        r
    }

    /// Bind a name in the environment at `at`.
    pub fn define(&mut self, at: usize, name: String, value: LiteralValue)
        requires
            well_formed(old(self)@),
            at < old(self)@.environments.len(),
        ensures
            well_formed(final(self)@),
            final(self)@ == (HeapView {
                environments: environment::define(
                    old(self)@.environments,
                    at as int,
                    name@,
                    value@,
                ),
                ..old(self)@
            }),
    {
        Environment::store(&mut self.environments, at, name, value);
    }

    /// Add an empty environment below a parent, and hand back its index.
    pub fn extend(&mut self, enclosing: usize) -> (r: usize)
        requires
            well_formed(old(self)@),
            enclosing < old(self)@.environments.len(),
        ensures
            well_formed(final(self)@),
            r == old(self)@.environments.len(),
            final(self)@ == (HeapView {
                environments: environment::extend(old(self)@.environments, Some(enclosing)),
                ..old(self)@
            }),
    {
        let at = self.environments.len();
        self.environments.push(Environment::new(Some(enclosing)));
        assert(self@.environments =~= environment::extend(
            old(self)@.environments,
            Some(enclosing),
        ));
        at
    }

    /// Add a function, and hand back its handle.
    pub fn add_function(&mut self, function: LoxFunction<'a>) -> (r: usize)
        requires
            well_formed(old(self)@),
            function.closure < old(self)@.environments.len(),
        ensures
            well_formed(final(self)@),
            r == old(self)@.functions.len(),
            final(self)@ == (HeapView {
                functions: old(self)@.functions.push(function@),
                ..old(self)@
            }),
    {
        let at = self.functions.len();
        self.functions.push(function);
        assert(self@.functions =~= old(self)@.functions.push(function@));
        at
    }

    /// Add an instance of a class, without fields, and hand back its
    /// handle.
    pub fn add_instance(&mut self, klass: usize) -> (r: usize)
        requires
            well_formed(old(self)@),
            klass < old(self)@.classes.len(),
        ensures
            well_formed(final(self)@),
            r == old(self)@.instances.len(),
            final(self)@ == (HeapView {
                instances: old(self)@.instances.push(
                    InstanceView { klass, fields: Map::empty() },
                ),
                ..old(self)@
            }),
    {
        let at = self.instances.len();
        let instance = LoxInstance { klass, fields: StringHashMap::new() };
        assert(instance@.fields =~= Map::empty());
        self.instances.push(instance);
        assert(self@.instances =~= old(self)@.instances.push(
            InstanceView { klass, fields: Map::empty() },
        ));
        at
    }

    /// Add a class, and hand back its handle.
    pub fn add_class(&mut self, class: LoxClass<'a>) -> (r: usize)
        requires
            well_formed(old(self)@),
            match class.superclass {
                Some(parent) => parent < old(self)@.classes.len(),
                None => true,
            },
            forall|k: Seq<char>| #[trigger]
                class@.methods.contains_key(k) ==> class@.methods[k].closure < old(
                    self,
                )@.environments.len(),
        ensures
            well_formed(final(self)@),
            r == old(self)@.classes.len(),
            final(self)@ == (HeapView { classes: old(self)@.classes.push(class@), ..old(self)@ }),
    {
        let at = self.classes.len();
        self.classes.push(class);
        assert(self@.classes =~= old(self)@.classes.push(class@));
        at
    }

    /// Bind a method to an instance.
    pub fn bind(&mut self, method: LoxFunction<'a>, instance: usize) -> (r: LoxFunction<'a>)
        requires
            well_formed(old(self)@),
            method.closure < old(self)@.environments.len(),
        ensures
            well_formed(final(self)@),
            (final(self)@.environments, r@) == bind(old(self)@.environments, method@, instance),
            final(self)@ == (HeapView { environments: final(self)@.environments, ..old(self)@ }),
            r.closure == old(self)@.environments.len(),
            final(self)@.environments.len() == old(self)@.environments.len() + 1,
    {
        method.bind(&mut self.environments, instance)
    }

    /// Bind a method to an instance, add the bound method as a function,
    /// and hand back the value that names it.
    pub fn bound_method(&mut self, method: LoxFunction<'a>, instance: usize) -> (r: LiteralValue)
        requires
            well_formed(old(self)@),
            method.closure < old(self)@.environments.len(),
        ensures
            well_formed(final(self)@),
            final(self)@.environments.len() == old(self)@.environments.len() + 1,
            r@ == ValueView::Function(old(self)@.functions.len() as usize),
            final(self)@.environments == bind(old(self)@.environments, method@, instance).0,
            final(self)@ == (HeapView {
                environments: final(self)@.environments,
                functions: old(self)@.functions.push(
                    bind(old(self)@.environments, method@, instance).1,
                ),
                ..old(self)@
            }),
    {
        let bound = self.bind(method, instance);
        let handle = self.add_function(bound);
        LiteralValue::Function(handle)
    }

    /// The text by which a value is displayed.
    pub fn describe(&self, value: &LiteralValue) -> (r: String)
        ensures
            r@ == describe(self@, value@),
    {
        match value {
            LiteralValue::Function(f) => {
                if *f < self.functions.len() {
                    let name = self.functions[*f].declaration.name.token_value.as_str();
                    String::from_str("<fn ").concat(name).concat(">")
                } else {
                    value.to_string()
                }
            },
            LiteralValue::LoxClass(c) => {
                if *c < self.classes.len() {
                    self.classes[*c].name.clone()
                } else {
                    value.to_string()
                }
            },
            LiteralValue::Instance(i) => {
                if *i < self.instances.len() && self.instances[*i].klass < self.classes.len() {
                    self.classes[self.instances[*i].klass].name.clone().concat(" instance")
                } else {
                    value.to_string()
                }
            },
            _ => value.to_string(),
        }
    }

    /// The text that `print` writes for a value.
    pub fn printed(&self, value: &LiteralValue) -> (r: String)
        ensures
            r@ == printed(self@, value@),
    {
        match value {
            LiteralValue::Number(n) => n.clone(),
            _ => self.describe(value),
        }
    }
}

impl<'a> LoxInstanceExt for Heap<'a> {
    open spec fn heap(&self) -> HeapView {
        self@
    }

    fn get(&mut self, instance: usize, token: &Token) -> (r: Option<LiteralValue>) {
        let name = token.token_value.as_str();
        match self.instances[instance].fields.get(name) {
            Some(value) => {
                return Some(value.clone());
            },
            None => {},
        }
        let klass = self.instances[instance].klass;
        assert(self@.instances[instance as int] == self.instances@[instance as int]@);
        proof {
            found_method_fits(self@, klass as int, name@);
        }
        match LoxClass::find_method(&self.classes, klass, name) {
            Some(method) => Some(self.bound_method(method, instance)),
            None => None,
        }
    }

    fn set(&mut self, instance: usize, token: &Token, value: LiteralValue) {
        assert(old(self)@.instances[instance as int] == old(self).instances@[instance as int]@);
        self.instances[instance].fields.insert(token.token_value.clone(), value);
        assert(self.instances@[instance as int]@.fields =~= old(
            self,
        ).instances@[instance as int]@.fields.insert(token.token_value@, value@));
        assert(self@.instances =~= write_field(
            old(self)@,
            instance as int,
            token.token_value@,
            value@,
        ).instances);
    }
}

} // verus!
