//! The debug information of a package: types, source files and functions.
use vstd::prelude::*;
use vstd::string::*;
use crate::compile::debug_types::{
    self, DebugPrimitiveType, DebugTypeView, DebugTypesSection, Tables, Type, add_string,
};
use crate::text::{self, chars_of, push_decimal, substring};

verus! {

/// A variable, with the places of its name and its type in their tables.
#[derive(Clone, Copy, PartialEq, Eq, Debug, Structural)]
pub struct DebugVariable {
    pub name: usize,
    pub ty: usize,
    pub line: u32,
    pub column: u32,
    /// The number of the parameter that the variable is, counted from one
    pub arg_index: Option<u64>,
}

/// A function, with the places of its names, its file and its type in their tables.
pub struct DebugFunction {
    pub name: usize,
    pub linkage_name: Option<usize>,
    pub file: usize,
    pub line: u32,
    pub column: u32,
    pub ty: Option<usize>,
    pub variables: Vec<DebugVariable>,
}

/// A function, with the places of its names, its file and its type in their tables.
pub ghost struct FunctionView {
    pub name: usize,
    pub linkage_name: Option<usize>,
    pub file: usize,
    pub line: u32,
    pub column: u32,
    pub ty: Option<usize>,
    pub variables: Seq<DebugVariable>,
}

/// What a function is.
pub open spec fn function_view(function: DebugFunction) -> FunctionView {
    FunctionView {
        name: function.name,
        linkage_name: function.linkage_name,
        file: function.file,
        line: function.line,
        column: function.column,
        ty: function.ty,
        variables: function.variables@,
    }
}

/// The debug information of a package.
pub struct DebugInfoSections {
    pub types: DebugTypesSection,
    pub file_names: Vec<String>,
    /// The places of the names of the files
    pub files: Vec<usize>,
    pub function_names: Vec<String>,
    pub functions: Vec<DebugFunction>,
}

/// What the debug information holds.
pub ghost struct Sections {
    pub types: Tables,
    pub file_names: Seq<Seq<char>>,
    pub files: Seq<usize>,
    pub function_names: Seq<Seq<char>>,
    pub functions: Seq<FunctionView>,
}

/// A variable in the intermediate representation.
pub struct Variable {
    pub name: String,
    pub ty: Option<Type>,
    pub line: u32,
    pub column: Option<u32>,
    pub arg_index: Option<u32>,
}

/// A function in the intermediate representation, as far as debuggers are concerned.
pub struct Subprogram {
    pub name: String,
    pub linkage_name: Option<String>,
    pub file: String,
    pub line: u32,
    pub column: Option<u32>,
    pub ty: Option<Type>,
    pub param_names: Vec<String>,
}

/// An operation of a function: the variable that it says something of, and the operations of the
/// entry blocks of its regions.
pub struct BlockOp {
    pub variable: Option<Variable>,
    pub regions: Vec<Vec<BlockOp>>,
}

/// A function, with the operations of its entry block.
pub struct FunctionInfo {
    pub subprogram: Option<Subprogram>,
    pub body: Vec<BlockOp>,
}

/// A part of a component.
pub enum ComponentPart {
    Module(Vec<FunctionInfo>),
    Interface(Vec<FunctionInfo>),
    Function(FunctionInfo),
    Other,
}

/// The number of a line; lines are counted from one.
pub open spec fn line_number(line: u32) -> u32 {
    if line == 0 {
        1
    } else {
        line
    }
}

/// The number of a column; columns are counted from one.
pub open spec fn column_number(column: Option<u32>) -> u32 {
    match column {
        Some(column) => line_number(column),
        None => 1,
    }
}

fn line_of(line: u32) -> (number: u32)
    ensures
        number == line_number(line),
{
    if line == 0 {
        1
    } else {
        line
    }
}

fn column_of(column: &Option<u32>) -> (number: u32)
    ensures
        number == column_number(*column),
{
    match column {
        Some(column) => line_of(*column),
        None => 1,
    }
}

/// The text without slashes at its end.
pub open spec fn without_slashes(s: Seq<char>) -> Seq<char>
    decreases s.len(),
{
    if s.len() > 0 && s.last() == '/' {
        without_slashes(s.drop_last())
    } else {
        s
    }
}

/// The path of a file: that in a directory, if one is given and the path is not absolute.
pub open spec fn full_path(path: Seq<char>, directory: Option<Seq<char>>) -> Seq<char> {
    match directory {
        Some(directory) => if (path.len() > 0 && path[0] == '/') || (path.len() > 1 && path[0]
            == '\\' && path[1] == '\\') {
            path
        } else {
            without_slashes(directory) + "/"@ + path
        },
        None => path,
    }
}

/// The text of a reference that may be missing.
pub open spec fn text_of(s: Option<&str>) -> Option<Seq<char>> {
    match s {
        Some(s) => Some(s@),
        None => None,
    }
}

proof fn trimmed_at(s: Seq<char>, n: int)
    requires
        0 <= n <= s.len(),
        forall|i: int| n <= i < s.len() ==> s[i] == '/',
        n > 0 ==> s[n - 1] != '/',
    ensures
        without_slashes(s) == s.take(n),
    decreases s.len(),
{
    if n < s.len() {
        trimmed_at(s.drop_last(), n);
        assert(s.drop_last().take(n) =~= s.take(n));
    } else {
        assert(s.take(n) =~= s);
    }
}

fn resolve_path(path: &str, directory: Option<&str>) -> (full: String)
    ensures
        full@ == full_path(path@, text_of(directory)),
{
    match directory {
        None => path.to_owned(),
        Some(directory) => {
            let p = chars_of(path);
            if (p.len() > 0 && p[0] == '/') || (p.len() > 1 && p[0] == '\\' && p[1] == '\\') {
                return path.to_owned();
            }
            let d = chars_of(directory);
            let mut n: usize = d.len();
            while n > 0 && d[n - 1] == '/'
                invariant
                    n <= d@.len(),
                    forall|i: int| n <= i < d@.len() ==> d@[i] == '/',
                decreases n,
            {
                n = n - 1;
            }
            proof {
                trimmed_at(d@, n as int);
            }
            let mut full = substring(&d, 0, n);
            assert(full@ =~= without_slashes(directory@));
            full.append("/");
            full.append(path);
            full
        },
    }
}

/// Where a file is, from `from` on.
pub open spec fn file_from(files: Seq<usize>, name: usize, from: int) -> Option<int>
    decreases files.len() - from,
{
    if from < 0 || from >= files.len() {
        None
    } else if files[from] == name {
        Some(from)
    } else {
        file_from(files, name, from + 1)
    }
}

/// The debug information with a file, unless it is there, and its place.
pub open spec fn with_file(sections: Sections, path: Seq<char>) -> (Sections, usize) {
    let name = debug_types::string_place(sections.file_names, path);
    let file_names = debug_types::strings_with(sections.file_names, path);
    match file_from(sections.files, name, 0) {
        Some(at) => (Sections { file_names, ..sections }, at as usize),
        None => (
            Sections { file_names, files: sections.files.push(name), ..sections },
            sections.files.len() as usize,
        ),
    }
}

/// A file is held once: adding it again changes nothing and gives the same place.
pub proof fn files_are_added_once(sections: Sections, path: Seq<char>)
    requires
        sections.file_names.len() <= usize::MAX,
        sections.files.len() <= usize::MAX,
    ensures
        with_file(with_file(sections, path).0, path) == with_file(sections, path),
{
    debug_types::strings_are_added_once(sections.file_names, path);
    let name = debug_types::string_place(sections.file_names, path);
    file_is_found(sections.files, name, 0);
    if file_from(sections.files, name, 0) is None {
        pushed_file_is_found(sections.files, name, 0);
    }
}

proof fn file_is_found(files: Seq<usize>, name: usize, from: int)
    requires
        0 <= from <= files.len(),
    ensures
        match file_from(files, name, from) {
            Some(at) => from <= at < files.len() && files[at] == name,
            None => forall|i: int| from <= i < files.len() ==> files[i] != name,
        },
    decreases files.len() - from,
{
    if from < files.len() && files[from] != name {
        file_is_found(files, name, from + 1);
    }
}

proof fn pushed_file_is_found(files: Seq<usize>, name: usize, from: int)
    requires
        0 <= from <= files.len(),
        forall|i: int| from <= i < files.len() ==> files[i] != name,
    ensures
        file_from(files.push(name), name, from) == Some(files.len() as int),
    decreases files.len() - from,
{
    if from < files.len() {
        assert(files.push(name)[from] == files[from]);
        pushed_file_is_found(files, name, from + 1);
    } else {
        assert(files.push(name)[from] == name);
    }
}

/// The debug information with the name of a function or a variable.
pub open spec fn with_name(sections: Sections, name: Seq<char>) -> Sections {
    Sections {
        function_names: debug_types::strings_with(sections.function_names, name),
        ..sections
    }
}

/// The debug information with a variable, and the variable. One without a type is a field element.
pub open spec fn with_variable(sections: Sections, variable: Variable) -> (
    Sections,
    DebugVariable,
) {
    let name = debug_types::string_place(sections.function_names, variable.name@);
    let sections = with_name(sections, variable.name@);
    let (types, ty) = match variable.ty {
        Some(ty) => debug_types::with_type(sections.types, ty),
        None => debug_types::registered(
            sections.types,
            DebugTypeView::Primitive(DebugPrimitiveType::Felt),
        ),
    };
    (
        Sections { types, ..sections },
        DebugVariable {
            name,
            ty,
            line: line_number(variable.line),
            column: column_number(variable.column),
            arg_index: match variable.arg_index {
                Some(index) => Some((index + 1) as u64),
                None => None,
            },
        },
    )
}

/// The name of a parameter, or what stands for it.
pub open spec fn param_label(names: Seq<String>, index: int) -> Seq<char> {
    if index < names.len() {
        names[index]@
    } else {
        "arg"@ + text::decimal(index as nat)
    }
}

/// The debug information with the first `n` parameters of a function, and these as variables.
pub open spec fn with_params(
    sections: Sections,
    subprogram: Subprogram,
    params: Seq<Type>,
    n: int,
) -> (Sections, Seq<DebugVariable>)
    decreases n,
{
    if n <= 0 {
        (sections, Seq::empty())
    } else {
        let (sections, done) = with_params(sections, subprogram, params, n - 1);
        let label = param_label(subprogram.param_names@, n - 1);
        let name = debug_types::string_place(sections.function_names, label);
        let sections = with_name(sections, label);
        let (types, ty) = debug_types::with_type(sections.types, params[n - 1]);
        (
            Sections { types, ..sections },
            done.push(
                DebugVariable {
                    name,
                    ty,
                    line: line_number(subprogram.line),
                    column: column_number(subprogram.column),
                    arg_index: Some(n as u64),
                },
            ),
        )
    }
}

/// The debug information with the variables of the first `n` operations of a block, and these.
pub open spec fn with_block(sections: Sections, ops: Vec<BlockOp>, n: int) -> (
    Sections,
    Seq<DebugVariable>,
)
    decreases ops, n,
{
    if n <= 0 || n > ops@.len() {
        (sections, Seq::empty())
    } else {
        let (sections, done) = with_block(sections, ops, n - 1);
        let (sections, more) = with_op(sections, ops@[n - 1]);
        (sections, done + more)
    }
}

/// The debug information with the variables of an operation and its regions, and these.
pub open spec fn with_op(sections: Sections, op: BlockOp) -> (Sections, Seq<DebugVariable>)
    decreases op, 0int,
{
    let (sections, own) = match op.variable {
        Some(variable) => {
            let (sections, variable) = with_variable(sections, variable);
            (sections, seq![variable])
        },
        None => (sections, Seq::empty()),
    };
    let (sections, nested) = with_regions(sections, op.regions, op.regions@.len() as int);
    (sections, own + nested)
}

/// The debug information with the variables of the first `n` regions, and these.
pub open spec fn with_regions(sections: Sections, regions: Vec<Vec<BlockOp>>, n: int) -> (
    Sections,
    Seq<DebugVariable>,
)
    decreases regions, n,
{
    if n <= 0 || n > regions@.len() {
        (sections, Seq::empty())
    } else {
        let (sections, done) = with_regions(sections, regions, n - 1);
        let (sections, more) = with_block(
            sections,
            regions@[n - 1],
            regions@[n - 1]@.len() as int,
        );
        (sections, done + more)
    }
}

/// The debug information with a function, if it has any: its file, its names, its type, its
/// parameters, and the variables of its body.
pub open spec fn with_function(sections: Sections, function: FunctionInfo) -> Sections {
    match function.subprogram {
        None => sections,
        Some(subprogram) => {
            let (sections, file) = with_file(sections, subprogram.file@);
            let name = debug_types::string_place(sections.function_names, subprogram.name@);
            let sections = with_name(sections, subprogram.name@);
            let (sections, linkage_name) = match subprogram.linkage_name {
                Some(linkage) => (
                    with_name(sections, linkage@),
                    Some(debug_types::string_place(sections.function_names, linkage@)),
                ),
                None => (sections, None),
            };
            let (sections, ty, params) = match subprogram.ty {
                Some(ty) => {
                    let (types, at) = debug_types::with_type(sections.types, ty);
                    let sections = Sections { types, ..sections };
                    match ty {
                        Type::Function { params, .. } => {
                            let (sections, variables) = with_params(
                                sections,
                                subprogram,
                                params@,
                                params@.len() as int,
                            );
                            (sections, Some(at), variables)
                        },
                        _ => (sections, Some(at), Seq::empty()),
                    }
                },
                None => (sections, None, Seq::empty()),
            };
            let (sections, variables) = with_block(
                sections,
                function.body,
                function.body@.len() as int,
            );
            Sections {
                functions: sections.functions.push(
                    FunctionView {
                        name,
                        linkage_name,
                        file,
                        line: line_number(subprogram.line),
                        column: column_number(subprogram.column),
                        ty,
                        variables: params + variables,
                    },
                ),
                ..sections
            }
        },
    }
}

/// The debug information with the first `n` functions.
pub open spec fn with_functions(sections: Sections, functions: Seq<FunctionInfo>, n: int) -> Sections
    decreases n,
{
    if n <= 0 {
        sections
    } else {
        with_function(with_functions(sections, functions, n - 1), functions[n - 1])
    }
}

/// The debug information with the functions of the first `n` parts of a component.
pub open spec fn with_parts(sections: Sections, parts: Seq<ComponentPart>, n: int) -> Sections
    decreases n,
{
    if n <= 0 {
        sections
    } else {
        let sections = with_parts(sections, parts, n - 1);
        match parts[n - 1] {
            ComponentPart::Module(functions) => with_functions(
                sections,
                functions@,
                functions@.len() as int,
            ),
            ComponentPart::Interface(functions) => with_functions(
                sections,
                functions@,
                functions@.len() as int,
            ),
            ComponentPart::Function(function) => with_function(sections, function),
            ComponentPart::Other => sections,
        }
    }
}

/// Nothing is known.
pub open spec fn no_sections() -> Sections {
    Sections {
        types: Tables { strings: Seq::empty(), types: Seq::empty(), registered: Seq::empty() },
        file_names: Seq::empty(),
        files: Seq::empty(),
        function_names: Seq::empty(),
        functions: Seq::empty(),
    }
}

/// There is something to know.
pub open spec fn is_some_info(sections: Sections) -> bool {
    sections.functions.len() > 0 || sections.types.types.len() > 0 || sections.files.len() > 0
}

/// Collects debug information.
pub struct DebugInfoBuilder {
    pub sections: DebugInfoSections,
}

impl DebugInfoSections {
    /// What the debug information holds.
    pub open spec fn holds(&self) -> Sections {
        Sections {
            types: self.types.tables(),
            file_names: text::texts(self.file_names@),
            files: self.files@,
            function_names: text::texts(self.function_names@),
            functions: self.functions@.map_values(|f: DebugFunction| function_view(f)),
        }
    }

    /// The types are well-formed.
    pub open spec fn wf(&self) -> bool {
        self.types.wf()
    }
}

fn param_name(names: &Vec<String>, index: usize) -> (name: String)
    ensures
        name@ == param_label(names@, index as int),
{
    if index < names.len() {
        names[index].as_str().to_owned()
    } else {
        let mut name = "arg".to_owned();
        push_decimal(&mut name, index as u64);
        name
    }
}

impl DebugInfoBuilder {
    /// What was collected.
    pub open spec fn holds(&self) -> Sections {
        self.sections.holds()
    }

    /// The types are well-formed.
    pub open spec fn wf(&self) -> bool {
        self.sections.wf()
    }

    /// A builder that has collected nothing.
    pub fn new() -> (builder: Self)
        ensures
            builder.wf(),
            builder.holds() == no_sections(),
    {
        let sections = DebugInfoSections {
            types: DebugTypesSection::new(),
            file_names: Vec::new(),
            files: Vec::new(),
            function_names: Vec::new(),
            functions: Vec::new(),
        };
        assert(sections.holds().file_names =~= Seq::empty());
        assert(sections.holds().function_names =~= Seq::empty());
        assert(sections.holds().functions =~= Seq::empty());
        assert(sections.holds().files =~= Seq::empty());
        DebugInfoBuilder { sections }
    }

    /// Adds a file, unless it is there, and returns its place.
    pub fn add_file(&mut self, path: &str, directory: Option<&str>) -> (at: usize)
        requires
            old(self).wf(),
        ensures
            final(self).wf(),
            (final(self).holds(), at) == with_file(
                old(self).holds(),
                full_path(path@, text_of(directory)),
            ),
    {
        let full = resolve_path(path, directory);
        let name = add_string(&mut self.sections.file_names, full.as_str());
        let ghost files = self.sections.files@;
        let mut i: usize = 0;
        while i < self.sections.files.len()
            invariant
                i <= self.sections.files@.len(),
                self.sections.files@ == files,
                file_from(files, name, 0) == file_from(files, name, i as int),
                self.wf(),
                self.holds() == (Sections {
                    file_names: debug_types::strings_with(old(self).holds().file_names, full@),
                    ..old(self).holds()
                }),
                full@ == full_path(path@, text_of(directory)),
                name == debug_types::string_place(old(self).holds().file_names, full@),
                files == old(self).holds().files,
            decreases files.len() - i,
        {
            if self.sections.files[i] == name {
                return i;
            }
            i = i + 1;
        }
        self.sections.files.push(name);
        i
    }

    /// Adds a type, unless it is there, and returns its place.
    pub fn add_type(&mut self, ty: &Type) -> (at: usize)
        requires
            old(self).wf(),
        ensures
            final(self).wf(),
            ({
                let (types, place) = debug_types::with_type(old(self).holds().types, *ty);
                &&& final(self).holds() == (Sections { types, ..old(self).holds() })
                &&& at == place
            }),
    {
        self.sections.types.add_type(ty)
    }

    /// Adds a type that debuggers know, unless it is there, and returns its place.
    pub fn add_primitive_type(&mut self, prim: DebugPrimitiveType) -> (at: usize)
        requires
            old(self).wf(),
        ensures
            final(self).wf(),
            ({
                let (types, place) = debug_types::registered(
                    old(self).holds().types,
                    DebugTypeView::Primitive(prim),
                );
                &&& final(self).holds() == (Sections { types, ..old(self).holds() })
                &&& at == place
            }),
    {
        self.sections.types.add_primitive_type(prim)
    }

    fn add_name(&mut self, name: &str) -> (at: usize)
        requires
            old(self).wf(),
        ensures
            final(self).wf(),
            final(self).holds() == with_name(old(self).holds(), name@),
            at == debug_types::string_place(old(self).holds().function_names, name@),
    {
        add_string(&mut self.sections.function_names, name)
    }

    fn extract_variable_info(&mut self, var: &Variable) -> (info: DebugVariable)
        requires
            old(self).wf(),
        ensures
            final(self).wf(),
            (final(self).holds(), info) == with_variable(old(self).holds(), *var),
    {
        let name = self.add_name(var.name.as_str());
        let ty = match &var.ty {
            Some(ty) => self.add_type(ty),
            None => self.add_primitive_type(DebugPrimitiveType::Felt),
        };
        let arg_index = match var.arg_index {
            Some(index) => Some(index as u64 + 1),
            None => None,
        };
        DebugVariable {
            name,
            ty,
            line: line_of(var.line),
            column: column_of(&var.column),
            arg_index,
        }
    }

    fn collect_subprogram_parameters(
        &mut self,
        subprogram: &Subprogram,
        params: &Vec<Type>,
        variables: &mut Vec<DebugVariable>,
    )
        requires
            old(self).wf(),
            old(variables)@.len() == 0,
        ensures
            final(self).wf(),
            (final(self).holds(), final(variables)@) == with_params(
                old(self).holds(),
                *subprogram,
                params@,
                params@.len() as int,
            ),
    {
        let mut i: usize = 0;
        assert(variables@ =~= Seq::empty());
        while i < params.len()
            invariant
                i <= params@.len(),
                self.wf(),
                (self.holds(), variables@) == with_params(
                    old(self).holds(),
                    *subprogram,
                    params@,
                    i as int,
                ),
            decreases params@.len() - i,
        {
            let label = param_name(&subprogram.param_names, i);
            let name = self.add_name(label.as_str());
            let ty = self.add_type(&params[i]);
            variables.push(
                DebugVariable {
                    name,
                    ty,
                    line: line_of(subprogram.line),
                    column: column_of(&subprogram.column),
                    arg_index: Some(i as u64 + 1),
                },
            );
            i = i + 1;
        }
    }

    fn collect_variables_from_block(
        &mut self,
        ops: &Vec<BlockOp>,
        n: usize,
        variables: &mut Vec<DebugVariable>,
    )
        requires
            old(self).wf(),
            n <= ops@.len(),
        ensures
            final(self).wf(),
            ({
                let (sections, more) = with_block(old(self).holds(), *ops, n as int);
                &&& final(self).holds() == sections
                &&& final(variables)@ == old(variables)@ + more
            }),
        decreases ops, n,
    {
        if n > 0 {
            self.collect_variables_from_block(ops, n - 1, variables);
            self.collect_variables_from_op(&ops[n - 1], variables);
        }
        assert(variables@ =~= old(variables)@ + with_block(old(self).holds(), *ops, n as int).1);
    }

    fn collect_variables_from_op(&mut self, op: &BlockOp, variables: &mut Vec<DebugVariable>)
        requires
            old(self).wf(),
        ensures
            final(self).wf(),
            ({
                let (sections, more) = with_op(old(self).holds(), *op);
                &&& final(self).holds() == sections
                &&& final(variables)@ == old(variables)@ + more
            }),
        decreases op, 0usize,
    {
        if let Some(variable) = &op.variable {
            let info = self.extract_variable_info(variable);
            variables.push(info);
        }
        let len: usize = op.regions.len();
        self.collect_variables_from_regions(&op.regions, len, variables);
        assert(variables@ =~= old(variables)@ + with_op(old(self).holds(), *op).1);
    }

    fn collect_variables_from_regions(
        &mut self,
        regions: &Vec<Vec<BlockOp>>,
        n: usize,
        variables: &mut Vec<DebugVariable>,
    )
        requires
            old(self).wf(),
            n <= regions@.len(),
        ensures
            final(self).wf(),
            ({
                let (sections, more) = with_regions(old(self).holds(), *regions, n as int);
                &&& final(self).holds() == sections
                &&& final(variables)@ == old(variables)@ + more
            }),
        decreases regions, n,
    {
        if n > 0 {
            self.collect_variables_from_regions(regions, n - 1, variables);
            let len: usize = regions[n - 1].len();
            self.collect_variables_from_block(&regions[n - 1], len, variables);
        }
        assert(variables@ =~= old(variables)@ + with_regions(
            old(self).holds(),
            *regions,
            n as int,
        ).1);
    }

    fn collect_from_function(&mut self, function: &FunctionInfo)
        requires
            old(self).wf(),
        ensures
            final(self).wf(),
            final(self).holds() == with_function(old(self).holds(), *function),
    {
        let subprogram = match &function.subprogram {
            Some(subprogram) => subprogram,
            None => {
                return;
            },
        };
        let file = self.add_file(subprogram.file.as_str(), None);
        let name = self.add_name(subprogram.name.as_str());
        let linkage_name = match &subprogram.linkage_name {
            Some(linkage) => Some(self.add_name(linkage.as_str())),
            None => None,
        };
        let mut variables: Vec<DebugVariable> = Vec::new();
        assert(variables@ =~= Seq::empty());
        let ty = match &subprogram.ty {
            Some(ty) => {
                let at = self.add_type(ty);
                if let Type::Function { params, .. } = ty {
                    self.collect_subprogram_parameters(subprogram, params, &mut variables);
                }
                Some(at)
            },
            None => None,
        };
        let len: usize = function.body.len();
        self.collect_variables_from_block(&function.body, len, &mut variables);
        let ghost before = self.holds();
        let info = DebugFunction {
            name,
            linkage_name,
            file,
            line: line_of(subprogram.line),
            column: column_of(&subprogram.column),
            ty,
            variables,
        };
        self.sections.functions.push(info);
        assert(self.holds().functions =~= before.functions.push(function_view(info)));
    }

    fn collect_from_functions(&mut self, functions: &Vec<FunctionInfo>)
        requires
            old(self).wf(),
        ensures
            final(self).wf(),
            final(self).holds() == with_functions(
                old(self).holds(),
                functions@,
                functions@.len() as int,
            ),
    {
        let mut i: usize = 0;
        while i < functions.len()
            invariant
                i <= functions@.len(),
                self.wf(),
                self.holds() == with_functions(old(self).holds(), functions@, i as int),
            decreases functions@.len() - i,
        {
            self.collect_from_function(&functions[i]);
            i = i + 1;
        }
    }

    /// Collects the debug information of a component: that of its functions, and of those of its
    /// modules and interfaces.
    pub fn collect_from_component(&mut self, component: &Vec<ComponentPart>)
        requires
            old(self).wf(),
        ensures
            final(self).wf(),
            final(self).holds() == with_parts(
                old(self).holds(),
                component@,
                component@.len() as int,
            ),
    {
        let mut i: usize = 0;
        while i < component.len()
            invariant
                i <= component@.len(),
                self.wf(),
                self.holds() == with_parts(old(self).holds(), component@, i as int),
            decreases component@.len() - i,
        {
            match &component[i] {
                ComponentPart::Module(functions) => self.collect_from_functions(functions),
                ComponentPart::Interface(functions) => self.collect_from_functions(functions),
                ComponentPart::Function(function) => self.collect_from_function(function),
                ComponentPart::Other => {},
            }
            i = i + 1;
        }
    }

    /// The debug information that was collected.
    pub fn build(self) -> (sections: DebugInfoSections)
        ensures
            sections == self.sections,
    {
        self.sections
    }

    /// Whether nothing was collected.
    pub fn is_empty(&self) -> (b: bool)
        ensures
            b == !is_some_info(self.holds()),
    {
        self.sections.functions.len() == 0 && self.sections.types.is_empty()
            && self.sections.files.len() == 0
    }
}

/// The debug information of a component, if it is wanted and there is some.
pub fn build_debug_info_sections(component: &Vec<ComponentPart>, emit_debug_decorators: bool) -> (
    sections: Option<DebugInfoSections>)
    ensures
        ({
            let wanted = with_parts(no_sections(), component@, component@.len() as int);
            match sections {
                Some(sections) => emit_debug_decorators && is_some_info(wanted) && sections.wf()
                    && sections.holds() == wanted,
                None => !emit_debug_decorators || !is_some_info(wanted),
            }
        }),
{
    if !emit_debug_decorators {
        return None;
    }
    let mut builder = DebugInfoBuilder::new();
    builder.collect_from_component(component);
    if builder.is_empty() {
        None
    } else {
        Some(builder.build())
    }
}

} // verus!
