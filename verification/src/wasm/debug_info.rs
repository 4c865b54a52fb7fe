//! The debug information of functions.
use vstd::prelude::*;
use crate::hir::debug_attrs::{
    DICompileUnitAttr, DIExpressionAttr, DIExpressionOp, DILocalVariableAttr, DISubprogramAttr,
};
use crate::span::SourceSpan;
use crate::symbol::{Interner, Symbol};
use crate::text::{self, push_decimal};
use crate::wasm::body::{self, readable_locals};
use crate::wasm::dwarf::{self, DwarfLocalData, LocationDescriptor, VariableStorage};
use crate::wasm::dwarf_locals::DwarfLocals;
use crate::wasm::operator::{self, value_type, ValType};

verus! {

/// The debug information of a local.
pub struct LocalDebugInfo {
    pub attr: DILocalVariableAttr,
    pub locations: Vec<LocationDescriptor>,
    pub expression: Option<DIExpressionAttr>,
}

/// From the given place in the code on, a variable is there.
#[derive(Clone, Copy, PartialEq, Eq, Debug, Structural)]
pub struct LocationScheduleEntry {
    pub offset: u64,
    pub var_index: usize,
    pub storage: VariableStorage,
}

/// The debug information of a function.
pub struct FunctionDebugInfo {
    pub compile_unit: DICompileUnitAttr,
    pub subprogram: DISubprogramAttr,
    pub locals: Vec<Option<LocalDebugInfo>>,
    pub function_span: Option<SourceSpan>,
    pub location_schedule: Vec<LocationScheduleEntry>,
    pub next_location_event: usize,
}

impl FunctionDebugInfo {
    /// The variable of a local, if it has one.
    pub fn local_attr(&self, index: usize) -> (attr: Option<&DILocalVariableAttr>)
        ensures
            match attr {
                Some(attr) => index < self.locals@.len() && (self.locals@[index as int] matches Some(
                    info,
                ) && info.attr == *attr),
                None => index >= self.locals@.len() || self.locals@[index as int] is None,
            },
    {
        if index < self.locals.len() {
            match &self.locals[index] {
                Some(info) => Some(&info.attr),
                None => None,
            }
        } else {
            None
        }
    }
}

/// A group of locals that are declared together.
#[derive(Clone, Copy, PartialEq, Eq, Debug, Structural)]
pub struct LocalDecl {
    pub count: u32,
    pub ty: ValType,
}

/// The types of declared locals.
pub open spec fn declared(decls: Seq<LocalDecl>) -> Seq<ValType>
    decreases decls.len(),
{
    if decls.len() == 0 {
        Seq::empty()
    } else {
        declared(decls.drop_last()) + Seq::new(decls.last().count as nat, |i: int| decls.last().ty)
    }
}

/// The types of all locals of a function: those of its parameters come first.
pub open spec fn all_locals(params: Seq<ValType>, decls: Seq<LocalDecl>) -> Seq<ValType> {
    params + declared(decls)
}

/// The name of a local that has none: its index after `arg` or `local`.
pub open spec fn default_name(index: int, params: int) -> Seq<char> {
    (if index < params {
        "arg"@
    } else {
        "local"@
    }) + text::decimal(index as nat)
}

/// What is known of a local.
#[verifier::ext_equal]
pub ghost struct LocalFacts {
    pub index: int,
    pub params: int,
    pub ty: ValType,
    pub given: Option<Seq<char>>,
    pub dwarf: Option<dwarf::LocalData>,
}

impl LocalFacts {
    /// The name of the local: that of its variable, or else the one given to it, or else a
    /// default.
    pub open spec fn name(self) -> Seq<char> {
        if self.dwarf matches Some(data) && data.name is Some {
            (self.dwarf->0).name->0
        } else if let Some(name) = self.given {
            name
        } else {
            default_name(self.index, self.params)
        }
    }

    /// The line of the local: that of its declaration, unless it is zero, or else that of the
    /// function.
    pub open spec fn line(self, subprogram: DISubprogramAttr) -> u32 {
        match self.dwarf {
            Some(data) => match data.decl_line {
                Some(line) => if line != 0 {
                    line
                } else {
                    subprogram.line
                },
                None => subprogram.line,
            },
            None => subprogram.line,
        }
    }

    /// The column of the local: that of its declaration, or else that of the function.
    pub open spec fn column(self, subprogram: DISubprogramAttr) -> Option<u32> {
        match self.dwarf {
            Some(data) => if data.decl_column is Some {
                data.decl_column
            } else {
                subprogram.column
            },
            None => subprogram.column,
        }
    }

    /// Where the local is.
    pub open spec fn locations(self) -> Seq<LocationDescriptor> {
        match self.dwarf {
            Some(data) => data.locations,
            None => Seq::empty(),
        }
    }

    /// `info` is the debug information of the local.
    pub open spec fn described(
        self,
        info: LocalDebugInfo,
        subprogram: DISubprogramAttr,
        interner: &Interner,
    ) -> bool {
        &&& interner.knows(info.attr.name)
        &&& interner.text(info.attr.name) == self.name()
        &&& info.attr.arg_index == if self.index < self.params {
            Some(self.index as u32)
        } else {
            None
        }
        &&& info.attr.file == subprogram.file
        &&& info.attr.line == self.line(subprogram)
        &&& info.attr.column == self.column(subprogram)
        &&& info.attr.ty == operator::type_of(self.ty)
        &&& info.locations@ == self.locations()
        &&& match info.expression {
            Some(expression) => {
                &&& self.locations().len() > 0
                &&& expression.operations@.len() == 1
                &&& self.locations()[0].storage.says(expression.operations@[0], interner)
            },
            None => self.locations().len() == 0,
        }
    }
}

proof fn descriptions_last(
    facts: LocalFacts,
    info: LocalDebugInfo,
    subprogram: DISubprogramAttr,
    before: &Interner,
    after: &Interner,
)
    requires
        facts.described(info, subprogram, before),
        after.extends(before),
    ensures
        facts.described(info, subprogram, after),
{
    assert(after@[info.attr.name.index as int] == before@[info.attr.name.index as int]);
    if let Some(expression) = info.expression {
        if let DIExpressionOp::Unsupported(name) = expression.operations@[0] {
            if before.knows(name) {
                assert(after@[name.index as int] == before@[name.index as int]);
            }
        }
    }
}

fn copy_list(list: &Vec<LocationDescriptor>) -> (copy: Vec<LocationDescriptor>)
    ensures
        copy@ == list@,
{
    let mut copy: Vec<LocationDescriptor> = Vec::new();
    let mut i: usize = 0;
    while i < list.len()
        invariant
            i <= list@.len(),
            copy@ == list@.take(i as int),
        decreases list@.len() - i,
    {
        copy.push(list[i]);
        assert(list@.take(i + 1) == list@.take(i as int).push(list@[i as int]));
        i = i + 1;
    }
    assert(list@.take(list@.len() as int) == list@);
    copy
}

/// The name given to a local, if there is one.
pub open spec fn given_name(names: Seq<Option<Symbol>>, index: int, interner: &Interner) -> Option<
    Seq<char>,
> {
    if index < names.len() {
        match names[index] {
            Some(name) => Some(interner.text(name)),
            None => None,
        }
    } else {
        None
    }
}

/// The names given to locals are known.
pub open spec fn names_known(names: Seq<Option<Symbol>>, interner: &Interner) -> bool {
    forall|i: int|
        0 <= i < names.len() ==> (#[trigger] names[i] matches Some(name) ==> interner.knows(name))
}

fn describe_local(
    index: u32,
    params: u32,
    ty: ValType,
    given: Option<Symbol>,
    data: Option<&DwarfLocalData>,
    subprogram: &DISubprogramAttr,
    interner: &mut Interner,
) -> (info: LocalDebugInfo)
    requires
        old(interner).wf(),
        old(interner)@.len() + 2 < u32::MAX,
        given matches Some(name) ==> old(interner).knows(name),
        index < u32::MAX,
    ensures
        final(interner).wf(),
        final(interner).extends(old(interner)),
        final(interner)@.len() <= old(interner)@.len() + 2,
        (LocalFacts {
            index: index as int,
            params: params as int,
            ty,
            given: match given {
                Some(name) => Some(old(interner).text(name)),
                None => None,
            },
            dwarf: match data {
                Some(data) => Some(data@),
                None => None,
            },
        }).described(info, *subprogram, final(interner)),
{
    let mut named: Option<Symbol> = None;
    if let Some(data) = data {
        if let Some(name) = &data.name {
            named = Some(interner.intern(name.as_str()));
        }
    }
    let name = match named {
        Some(name) => name,
        None => match given {
            Some(name) => name,
            None => {
                let mut out = String::new();
                if index < params {
                    out.append("arg");
                } else {
                    out.append("local");
                }
                push_decimal(&mut out, index as u64);
                assert(out@ == default_name(index as int, params as int));
                interner.intern(out.as_str())
            },
        },
    };
    let ghost middle = *interner;
    let mut attr = DILocalVariableAttr::new(
        name,
        subprogram.file,
        subprogram.line,
        subprogram.column,
    );
    if index < params {
        attr.arg_index = Some(index);
    }
    attr.ty = value_type(ty);
    let mut locations: Vec<LocationDescriptor> = Vec::new();
    if let Some(data) = data {
        if let Some(line) = data.decl_line {
            if line != 0 {
                attr.line = line;
            }
        }
        if data.decl_column.is_some() {
            attr.column = data.decl_column;
        }
        locations = copy_list(&data.locations);
    }
    let mut expression: Option<DIExpressionAttr> = None;
    if locations.len() > 0 {
        let mut ops: Vec<DIExpressionOp> = Vec::new();
        ops.push(locations[0].storage.to_expression_op(interner));
        expression = Some(DIExpressionAttr::with_ops(ops));
    }
    assert(interner@[name.index as int] == middle@[name.index as int]);
    LocalDebugInfo { attr, locations, expression }
}

proof fn declared_grows(decls: Seq<LocalDecl>, n: int)
    requires
        0 <= n <= decls.len(),
    ensures
        declared(decls.take(n)).len() <= declared(decls).len(),
    decreases decls.len() - n,
{
    if n < decls.len() {
        assert(decls.take(n + 1).drop_last() == decls.take(n));
        declared_grows(decls, n + 1);
    } else {
        assert(decls.take(n) == decls);
    }
}

/// The types of all locals of a function.
pub fn local_types(params: &Vec<ValType>, decls: &Vec<LocalDecl>) -> (types: Vec<ValType>)
    requires
        all_locals(params@, decls@).len() < u32::MAX,
    ensures
        types@ == all_locals(params@, decls@),
{
    let mut types: Vec<ValType> = Vec::new();
    let mut i: usize = 0;
    while i < params.len()
        invariant
            i <= params@.len(),
            types@ == params@.take(i as int),
        decreases params@.len() - i,
    {
        types.push(params[i]);
        assert(params@.take(i + 1) == params@.take(i as int).push(params@[i as int]));
        i = i + 1;
    }
    assert(params@.take(params@.len() as int) == params@);
    let mut d: usize = 0;
    assert(types@ == params@ + declared(decls@.take(0)));
    while d < decls.len()
        invariant
            d <= decls@.len(),
            all_locals(params@, decls@).len() < u32::MAX,
            types@ == params@ + declared(decls@.take(d as int)),
        decreases decls@.len() - d,
    {
        let decl = decls[d];
        let ghost before = types@;
        assert(decls@.take(d + 1).drop_last() == decls@.take(d as int));
        assert(decls@.take(d + 1).last() == decl);
        proof {
            declared_grows(decls@, d + 1);
        }
        let mut k: u32 = 0;
        while k < decl.count
            invariant
                k <= decl.count,
                types@ == before + Seq::new(k as nat, |i: int| decl.ty),
                before.len() + decl.count < u32::MAX,
            decreases decl.count - k,
        {
            types.push(decl.ty);
            k = k + 1;
            assert(types@ == before + Seq::new(k as nat, |i: int| decl.ty));
        }
        d = d + 1;
        assert(types@ == params@ + declared(decls@.take(d as int)));
    }
    assert(decls@.take(decls@.len() as int) == decls@);
    types
}

/// What is known of the local of the given index.
pub open spec fn facts_of(
    function: u32,
    params: Seq<ValType>,
    decls: Seq<LocalDecl>,
    names: Seq<Option<Symbol>>,
    locals: Map<(u32, u32), dwarf::LocalData>,
    interner: &Interner,
    index: int,
) -> LocalFacts {
    LocalFacts {
        index,
        params: params.len() as int,
        ty: all_locals(params, decls)[index],
        given: given_name(names, index, interner),
        dwarf: if locals.dom().contains((function, index as u32)) {
            Some(locals[(function, index as u32)])
        } else {
            None
        },
    }
}

/// The debug information of every local of a function, given the declarations of its locals.
pub fn describe_locals(
    function: u32,
    params: &Vec<ValType>,
    decls: &Vec<LocalDecl>,
    names: &Vec<Option<Symbol>>,
    subprogram: &DISubprogramAttr,
    dwarf_locals: &DwarfLocals,
    interner: &mut Interner,
) -> (locals: Vec<Option<LocalDebugInfo>>)
    requires
        old(interner).wf(),
        all_locals(params@, decls@).len() < u32::MAX,
        old(interner)@.len() + 2 * all_locals(params@, decls@).len() + 2 < u32::MAX,
        names_known(names@, old(interner)),
    ensures
        final(interner).wf(),
        final(interner).extends(old(interner)),
        final(interner)@.len() <= old(interner)@.len() + 2 * all_locals(params@, decls@).len(),
        locals@.len() == all_locals(params@, decls@).len(),
        forall|i: int|
            0 <= i < locals@.len() ==> (#[trigger] locals@[i] matches Some(info) && facts_of(
                function,
                params@,
                decls@,
                names@,
                dwarf_locals@,
                old(interner),
                i,
            ).described(info, *subprogram, final(interner))),
{
    let types = local_types(params, decls);
    let mut locals: Vec<Option<LocalDebugInfo>> = Vec::new();
    let mut i: usize = 0;
    while i < types.len()
        invariant
            i <= types@.len(),
            types@ == all_locals(params@, decls@),
            params@.len() <= types@.len() < u32::MAX,
            old(interner)@.len() + 2 * types@.len() + 2 < u32::MAX,
            interner.wf(),
            interner.extends(old(interner)),
            interner@.len() <= old(interner)@.len() + 2 * i,
            names_known(names@, old(interner)),
            locals@.len() == i,
            forall|j: int|
                0 <= j < i ==> (#[trigger] locals@[j] matches Some(info) && facts_of(
                    function,
                    params@,
                    decls@,
                    names@,
                    dwarf_locals@,
                    old(interner),
                    j,
                ).described(info, *subprogram, interner)),
        decreases types@.len() - i,
    {
        let given: Option<Symbol> = if i < names.len() {
            names[i]
        } else {
            None
        };
        let data = dwarf_locals.get(function, i as u32);
        let ghost before = *interner;
        let ghost done = locals@;
        proof {
            if let Some(name) = given {
                assert(old(interner).knows(name));
                assert(interner@[name.index as int] == old(interner)@[name.index as int]);
            }
        }
        let info = describe_local(
            i as u32,
            params.len() as u32,
            types[i],
            given,
            data,
            subprogram,
            interner,
        );
        let ghost facts = facts_of(
            function,
            params@,
            decls@,
            names@,
            dwarf_locals@,
            old(interner),
            i as int,
        );
        assert(facts.described(info, *subprogram, interner));
        locals.push(Some(info));
        assert forall|j: int| 0 <= j < i + 1 implies (#[trigger] locals@[j] matches Some(info)
            && facts_of(function, params@, decls@, names@, dwarf_locals@, old(interner), j).described(
            info,
            *subprogram,
            interner,
        )) by {
            if j < i {
                assert(locals@[j] == done[j]);
                descriptions_last(
                    facts_of(function, params@, decls@, names@, dwarf_locals@, old(interner), j),
                    done[j]->0,
                    *subprogram,
                    &before,
                    interner,
                );
            }
        }
        i = i + 1;
    }
    locals
}

/// The debug information of every local of a function: of its parameters, and of the locals that
/// its body declares. A declaration that cannot be read is left out.
pub fn build_local_debug_info(
    function: u32,
    params: &Vec<ValType>,
    body: &[u8],
    names: &Vec<Option<Symbol>>,
    subprogram: &DISubprogramAttr,
    dwarf_locals: &DwarfLocals,
    interner: &mut Interner,
) -> (locals: Vec<Option<LocalDebugInfo>>)
    requires
        old(interner).wf(),
        all_locals(params@, body::readable_in(body@)).len() < u32::MAX,
        old(interner)@.len() + 2 * all_locals(params@, body::readable_in(body@)).len() + 2
            < u32::MAX,
        names_known(names@, old(interner)),
    ensures
        final(interner).wf(),
        final(interner).extends(old(interner)),
        final(interner)@.len() <= old(interner)@.len() + 2 * all_locals(
            params@,
            body::readable_in(body@),
        ).len(),
        locals@.len() == all_locals(params@, body::readable_in(body@)).len(),
        forall|i: int|
            0 <= i < locals@.len() ==> (#[trigger] locals@[i] matches Some(info) && facts_of(
                function,
                params@,
                body::readable_in(body@),
                names@,
                dwarf_locals@,
                old(interner),
                i,
            ).described(info, *subprogram, final(interner))),
{
    let decls = readable_locals(body);
    describe_locals(function, params, &decls, names, subprogram, dwarf_locals, interner)
}

/// The entries for the locations of a variable that are locals.
pub open spec fn entries_of(locations: Seq<LocationDescriptor>, var_index: usize) -> Seq<
    LocationScheduleEntry,
>
    decreases locations.len(),
{
    if locations.len() == 0 {
        Seq::empty()
    } else {
        let before = entries_of(locations.drop_last(), var_index);
        let last = locations.last();
        if last.storage.local() is Some {
            before.push(
                LocationScheduleEntry { offset: last.start, var_index, storage: last.storage },
            )
        } else {
            before
        }
    }
}

/// The entries for the locations of the first `n` locals, variable by variable.
pub open spec fn listed(locals: Seq<Option<LocalDebugInfo>>, n: int) -> Seq<LocationScheduleEntry>
    decreases n,
{
    if n <= 0 {
        Seq::empty()
    } else {
        listed(locals, n - 1) + match locals[n - 1] {
            Some(info) => entries_of(info.locations@, (n - 1) as usize),
            None => Seq::empty(),
        }
    }
}

/// The entries are in the order of their offsets.
pub open spec fn in_order(entries: Seq<LocationScheduleEntry>) -> bool {
    forall|i: int, j: int|
        0 <= i < j < entries.len() ==> (#[trigger] entries[i]).offset <= (
        #[trigger] entries[j]).offset
}

/// The entries for one offset.
pub open spec fn at_offset(entries: Seq<LocationScheduleEntry>, offset: u64) -> Seq<
    LocationScheduleEntry,
> {
    entries.filter(|entry: LocationScheduleEntry| entry.offset == offset)
}

/// Two lists have the same entries, and those for one offset in the same order.
pub open spec fn same_entries(a: Seq<LocationScheduleEntry>, b: Seq<LocationScheduleEntry>) -> bool {
    forall|offset: u64| #[trigger] at_offset(a, offset) == at_offset(b, offset)
}

proof fn none_at(entries: Seq<LocationScheduleEntry>, offset: u64)
    requires
        forall|i: int| 0 <= i < entries.len() ==> (#[trigger] entries[i]).offset != offset,
    ensures
        at_offset(entries, offset) == Seq::<LocationScheduleEntry>::empty(),
    decreases entries.len(),
{
    reveal(Seq::filter);
    if entries.len() > 0 {
        assert forall|i: int| 0 <= i < entries.drop_last().len() implies (
        #[trigger] entries.drop_last()[i]).offset != offset by {
            assert(entries.drop_last()[i] == entries[i]);
        }
        none_at(entries.drop_last(), offset);
        assert(entries[entries.len() - 1].offset != offset);
    }
}

proof fn inserting_keeps_entries(
    sorted: Seq<LocationScheduleEntry>,
    list: Seq<LocationScheduleEntry>,
    entry: LocationScheduleEntry,
    at: int,
)
    requires
        same_entries(sorted, list),
        0 <= at <= sorted.len(),
        forall|i: int| at <= i < sorted.len() ==> (#[trigger] sorted[i]).offset > entry.offset,
    ensures
        same_entries(sorted.insert(at, entry), list.push(entry)),
{
    let head = sorted.take(at);
    let tail = sorted.skip(at);
    assert(sorted == head + tail);
    assert(sorted.insert(at, entry) == head + seq![entry] + tail);
    assert(list.push(entry) == list + seq![entry]);
    assert forall|offset: u64| #[trigger] at_offset(sorted.insert(at, entry), offset) == at_offset(
        list.push(entry),
        offset,
    ) by {
        let p = |e: LocationScheduleEntry| e.offset == offset;
        Seq::filter_distributes_over_add(head, tail, p);
        Seq::filter_distributes_over_add(head + seq![entry], tail, p);
        Seq::filter_distributes_over_add(head, seq![entry], p);
        Seq::filter_distributes_over_add(list, seq![entry], p);
        assert(at_offset(sorted, offset) == at_offset(list, offset));
        if offset == entry.offset {
            assert forall|i: int| 0 <= i < tail.len() implies (#[trigger] tail[i]).offset
                != offset by {
                assert(tail[i] == sorted[at + i]);
            }
            none_at(tail, offset);
            assert(at_offset(head, offset) == at_offset(list, offset));
        } else {
            none_at(seq![entry], offset);
            assert(at_offset(head, offset) + at_offset(tail, offset) == at_offset(list, offset));
        }
    }
}

fn insert_entry(
    sorted: &mut Vec<LocationScheduleEntry>,
    entry: LocationScheduleEntry,
    Ghost(list): Ghost<Seq<LocationScheduleEntry>>,
)
    requires
        in_order(old(sorted)@),
        same_entries(old(sorted)@, list),
    ensures
        in_order(final(sorted)@),
        same_entries(final(sorted)@, list.push(entry)),
{
    let mut at: usize = sorted.len();
    while at > 0 && sorted[at - 1].offset > entry.offset
        invariant
            at <= sorted@.len(),
            sorted@ == old(sorted)@,
            forall|i: int| at <= i < sorted@.len() ==> (#[trigger] sorted@[i]).offset > entry.offset,
        decreases at,
    {
        at = at - 1;
    }
    proof {
        inserting_keeps_entries(sorted@, list, entry, at as int);
        let after = sorted@.insert(at as int, entry);
        assert forall|i: int, j: int| 0 <= i < j < after.len() implies (#[trigger] after[i]).offset
            <= (#[trigger] after[j]).offset by {
            let a = if i < at {
                i
            } else {
                i - 1
            };
            let b = if j < at {
                j
            } else {
                j - 1
            };
            if at > 0 {
                assert(sorted@[at - 1].offset <= entry.offset);
                if i != at && i < at - 1 {
                    assert(sorted@[i].offset <= sorted@[at - 1].offset);
                }
            }
            if i != at && j != at {
                assert(after[i] == sorted@[a] && after[j] == sorted@[b]);
            } else if i == at {
                assert(after[j] == sorted@[b]);
            } else {
                assert(after[i] == sorted@[a]);
            }
        }
    }
    sorted.insert(at, entry);
}

/// When variables are in which locals: an entry for every location that is a local, in the order
/// of where they start. Those that start at the same place stay in the order of the variables.
pub fn build_location_schedule(locals: &Vec<Option<LocalDebugInfo>>) -> (schedule: Vec<
    LocationScheduleEntry,
>)
    ensures
        in_order(schedule@),
        same_entries(schedule@, listed(locals@, locals@.len() as int)),
{
    let mut schedule: Vec<LocationScheduleEntry> = Vec::new();
    let mut var_index: usize = 0;
    while var_index < locals.len()
        invariant
            var_index <= locals@.len(),
            in_order(schedule@),
            same_entries(schedule@, listed(locals@, var_index as int)),
        decreases locals@.len() - var_index,
    {
        let ghost before = listed(locals@, var_index as int);
        assert(before + Seq::<LocationScheduleEntry>::empty() == before);
        if let Some(info) = &locals[var_index] {
            let locations = &info.locations;
            let mut i: usize = 0;
            assert(before + entries_of(locations@.take(0), var_index) == before);
            while i < locations.len()
                invariant
                    i <= locations@.len(),
                    in_order(schedule@),
                    same_entries(
                        schedule@,
                        before + entries_of(locations@.take(i as int), var_index),
                    ),
                decreases locations@.len() - i,
            {
                let descriptor = locations[i];
                let ghost list = before + entries_of(locations@.take(i as int), var_index);
                assert(locations@.take(i + 1).drop_last() == locations@.take(i as int));
                assert(locations@.take(i + 1).last() == descriptor);
                if descriptor.storage.as_local().is_some() {
                    let entry = LocationScheduleEntry {
                        offset: descriptor.start,
                        var_index,
                        storage: descriptor.storage,
                    };
                    insert_entry(&mut schedule, entry, Ghost(list));
                    assert(list.push(entry) == before + entries_of(
                        locations@.take(i + 1),
                        var_index,
                    ));
                }
                i = i + 1;
            }
            assert(locations@.take(locations@.len() as int) == locations@);
        }
        var_index = var_index + 1;
    }
    schedule
}

/// The path of a file, and that of the directory that it is in.
pub struct FilePath {
    pub path: String,
    pub parent: Option<String>,
}

/// The position of code in a source file.
pub struct SourceLocation {
    pub file: Option<FilePath>,
    pub line: Option<u32>,
    pub column: Option<u32>,
}

/// The file that a function stems from: that of its position, or else the module itself.
pub open spec fn file_of(location: Option<SourceLocation>, wasm_file: Option<FilePath>) -> Option<
    FilePath,
> {
    match location {
        Some(location) => match location.file {
            Some(file) => Some(file),
            None => wasm_file,
        },
        None => wasm_file,
    }
}

/// The path of the file that a function stems from.
pub open spec fn file_text(file: Option<FilePath>) -> Seq<char> {
    match file {
        Some(file) => file.path@,
        None => "unknown"@,
    }
}

/// `directory` is the directory of the file that a function stems from.
pub open spec fn is_directory(
    directory: Option<Symbol>,
    file: Option<FilePath>,
    interner: &Interner,
) -> bool {
    match directory {
        Some(symbol) => interner.knows(symbol) && (file matches Some(file) && (file.parent matches Some(
            parent,
        ) && interner.text(symbol) == parent@)),
        None => file is None || (file->0).parent is None,
    }
}

/// The names of the file that a function stems from, and of its directory.
pub fn determine_file_symbols(
    location: &Option<SourceLocation>,
    wasm_file: &Option<FilePath>,
    interner: &mut Interner,
) -> (symbols: (Symbol, Option<Symbol>))
    requires
        old(interner).wf(),
        old(interner)@.len() + 2 < u32::MAX,
    ensures
        final(interner).wf(),
        final(interner).extends(old(interner)),
        final(interner)@.len() <= old(interner)@.len() + 2,
        final(interner).knows(symbols.0),
        final(interner).text(symbols.0) == file_text(file_of(*location, *wasm_file)),
        is_directory(symbols.1, file_of(*location, *wasm_file), final(interner)),
{
    let mut file: &Option<FilePath> = wasm_file;
    if let Some(location) = location {
        if location.file.is_some() {
            file = &location.file;
        }
    }
    match file {
        Some(file) => {
            let mut directory: Option<Symbol> = None;
            if let Some(parent) = &file.parent {
                directory = Some(interner.intern(parent.as_str()));
            }
            let ghost middle = *interner;
            let symbol = interner.intern(file.path.as_str());
            proof {
                if let Some(d) = directory {
                    assert(interner@[d.index as int] == middle@[d.index as int]);
                }
            }
            (symbol, directory)
        },
        None => (interner.intern("unknown"), None),
    }
}

/// The line and column of a position; zero if there is no line.
pub fn determine_location(location: &Option<SourceLocation>) -> (position: (u32, Option<u32>))
    ensures
        position.0 == match *location {
            Some(location) => match location.line {
                Some(line) => line,
                None => 0,
            },
            None => 0,
        },
        position.1 == match *location {
            Some(location) => location.column,
            None => None,
        },
{
    match location {
        Some(location) => {
            let line = match location.line {
                Some(line) => line,
                None => 0,
            };
            (line, location.column)
        },
        None => (0, None),
    }
}

/// A function that is defined in a module.
pub struct FunctionSource {
    pub index: u32,
    pub name: Symbol,
    pub params: Vec<ValType>,
    /// The bytes of the body of the function
    pub body: Vec<u8>,
    pub local_names: Vec<Option<Symbol>>,
    /// Where the body of the function stems from
    pub location: Option<SourceLocation>,
}

impl FunctionSource {
    /// The declarations of locals of the function that can be read.
    pub open spec fn decls(&self) -> Seq<LocalDecl> {
        body::readable_in(self.body@)
    }

    /// How many names the debug information of the function may add.
    pub open spec fn new_names(&self) -> nat {
        2 * all_locals(self.params@, self.decls()).len() + 6
    }

    /// There is room for the names of the function, and the given ones are known.
    pub open spec fn ready(&self, interner: &Interner) -> bool {
        &&& interner.wf()
        &&& all_locals(self.params@, self.decls()).len() < u32::MAX
        &&& interner@.len() + self.new_names() < u32::MAX
        &&& names_known(self.local_names@, interner)
        &&& interner.knows(self.name)
    }

    /// `info` is the debug information of the function.
    pub open spec fn described(
        &self,
        info: FunctionDebugInfo,
        wasm_file: Option<FilePath>,
        dwarf_locals: Map<(u32, u32), dwarf::LocalData>,
        before: &Interner,
        interner: &Interner,
    ) -> bool {
        let file = file_of(self.location, wasm_file);
        let unit = info.compile_unit;
        let sub = info.subprogram;
        &&& interner.knows(unit.language) && interner.text(unit.language) == "wasm"@
        &&& interner.knows(unit.file) && interner.text(unit.file) == file_text(file)
        &&& is_directory(unit.directory, file, interner)
        &&& unit.producer matches Some(producer) && interner.knows(producer) && interner.text(
            producer,
        ) == "midenc-frontend-wasm"@
        &&& !unit.optimized
        &&& sub.name == self.name
        &&& sub.linkage_name is None
        &&& sub.file == unit.file
        &&& sub.line == (match self.location {
            Some(location) => match location.line {
                Some(line) => line,
                None => 0,
            },
            None => 0,
        })
        &&& sub.column == (match self.location {
            Some(location) => location.column,
            None => None,
        })
        &&& sub.is_definition && !sub.is_local
        &&& info.locals@.len() == all_locals(self.params@, self.decls()).len()
        &&& forall|i: int|
            0 <= i < info.locals@.len() ==> (#[trigger] info.locals@[i] matches Some(local)
                && facts_of(
                self.index,
                self.params@,
                self.decls(),
                self.local_names@,
                dwarf_locals,
                before,
                i,
            ).described(local, sub, interner))
        &&& info.function_span is None
        &&& in_order(info.location_schedule@)
        &&& same_entries(
            info.location_schedule@,
            listed(info.locals@, info.locals@.len() as int),
        )
        &&& info.next_location_event == 0
    }
}

/// The debug information of a function.
pub fn build_function_debug_info(
    source: &FunctionSource,
    wasm_file: &Option<FilePath>,
    dwarf_locals: &DwarfLocals,
    interner: &mut Interner,
) -> (info: FunctionDebugInfo)
    requires
        source.ready(old(interner)),
    ensures
        final(interner).wf(),
        final(interner).extends(old(interner)),
        final(interner)@.len() <= old(interner)@.len() + source.new_names(),
        source.described(info, *wasm_file, dwarf_locals@, old(interner), final(interner)),
{
    let (file, directory) = determine_file_symbols(&source.location, wasm_file, interner);
    let (line, column) = determine_location(&source.location);
    let ghost first = *interner;
    let language = interner.intern("wasm");
    let producer = interner.intern("midenc-frontend-wasm");
    let mut compile_unit = DICompileUnitAttr::new(language, file);
    compile_unit.directory = directory;
    compile_unit.producer = Some(producer);
    let subprogram = DISubprogramAttr::new(source.name, compile_unit.file, line, column);
    let ghost second = *interner;
    assert(names_known(source.local_names@, interner)) by {
        assert forall|i: int| 0 <= i < source.local_names@.len() implies (
        #[trigger] source.local_names@[i] matches Some(name) ==> interner.knows(name)) by {
            assert(source.local_names@[i] matches Some(name) ==> old(interner).knows(name));
        }
    }
    let locals = build_local_debug_info(
        source.index,
        &source.params,
        source.body.as_slice(),
        &source.local_names,
        &subprogram,
        dwarf_locals,
        interner,
    );
    let location_schedule = build_location_schedule(&locals);
    let info = FunctionDebugInfo {
        compile_unit,
        subprogram,
        locals,
        function_span: None,
        location_schedule,
        next_location_event: 0,
    };
    proof {
        assert(interner@[language.index as int] == second@[language.index as int]);
        assert(interner@[producer.index as int] == second@[producer.index as int]);
        assert(interner@[file.index as int] == first@[file.index as int]);
        if let Some(d) = directory {
            assert(interner@[d.index as int] == first@[d.index as int]);
        }
        assert forall|i: int| 0 <= i < info.locals@.len() implies (
        #[trigger] info.locals@[i] matches Some(local) && facts_of(
            source.index,
            source.params@,
            source.decls(),
            source.local_names@,
            dwarf_locals@,
            old(interner),
            i,
        ).described(local, subprogram, interner)) by {
            let a = facts_of(
                source.index,
                source.params@,
                source.decls(),
                source.local_names@,
                dwarf_locals@,
                old(interner),
                i,
            );
            let b = facts_of(
                source.index,
                source.params@,
                source.decls(),
                source.local_names@,
                dwarf_locals@,
                &second,
                i,
            );
            if i < source.local_names@.len() {
                if let Some(name) = source.local_names@[i] {
                    assert(old(interner).knows(name));
                    assert(second@[name.index as int] == old(interner)@[name.index as int]);
                }
            }
            assert(a == b);
        }
    }
    info
}

/// How many names the debug information of the first `n` functions may add.
pub open spec fn all_new_names(sources: Seq<FunctionSource>, n: int) -> nat
    decreases n,
{
    if n <= 0 {
        0
    } else {
        all_new_names(sources, n - 1) + sources[n - 1].new_names()
    }
}

proof fn names_add_up(sources: Seq<FunctionSource>, n: int, m: int)
    requires
        0 <= n <= m,
    ensures
        all_new_names(sources, n) <= all_new_names(sources, m),
    decreases m - n,
{
    if n < m {
        names_add_up(sources, n, m - 1);
    }
}

proof fn function_descriptions_last(
    source: &FunctionSource,
    info: FunctionDebugInfo,
    wasm_file: Option<FilePath>,
    locals: Map<(u32, u32), dwarf::LocalData>,
    first: &Interner,
    before: &Interner,
    after: &Interner,
)
    requires
        source.described(info, wasm_file, locals, first, before),
        after.extends(before),
    ensures
        source.described(info, wasm_file, locals, first, after),
{
    let unit = info.compile_unit;
    assert(after@[unit.language.index as int] == before@[unit.language.index as int]);
    assert(after@[unit.file.index as int] == before@[unit.file.index as int]);
    if let Some(d) = unit.directory {
        assert(after@[d.index as int] == before@[d.index as int]);
    }
    if let Some(p) = unit.producer {
        assert(after@[p.index as int] == before@[p.index as int]);
    }
    assert forall|i: int| 0 <= i < info.locals@.len() implies (
    #[trigger] info.locals@[i] matches Some(local) && facts_of(
        source.index,
        source.params@,
        source.decls(),
        source.local_names@,
        locals,
        first,
        i,
    ).described(local, info.subprogram, after)) by {
        descriptions_last(
            facts_of(
                source.index,
                source.params@,
                source.decls(),
                source.local_names@,
                locals,
                first,
                i,
            ),
            info.locals@[i]->0,
            info.subprogram,
            before,
            after,
        );
    }
}

proof fn facts_last(
    source: &FunctionSource,
    info: FunctionDebugInfo,
    wasm_file: Option<FilePath>,
    locals: Map<(u32, u32), dwarf::LocalData>,
    first: &Interner,
    second: &Interner,
    after: &Interner,
)
    requires
        source.described(info, wasm_file, locals, second, after),
        second.extends(first),
        names_known(source.local_names@, first),
    ensures
        source.described(info, wasm_file, locals, first, after),
{
    assert forall|i: int| 0 <= i < info.locals@.len() implies (
    #[trigger] info.locals@[i] matches Some(local) && facts_of(
        source.index,
        source.params@,
        source.decls(),
        source.local_names@,
        locals,
        first,
        i,
    ).described(local, info.subprogram, after)) by {
        if i < source.local_names@.len() {
            if let Some(name) = source.local_names@[i] {
                assert(first.knows(name));
                assert(second@[name.index as int] == first@[name.index as int]);
            }
        }
        assert(facts_of(
            source.index,
            source.params@,
            source.decls(),
            source.local_names@,
            locals,
            first,
            i,
        ) == facts_of(
            source.index,
            source.params@,
            source.decls(),
            source.local_names@,
            locals,
            second,
            i,
        ));
    }
}

/// The debug information of every function that is defined in a module.
pub fn collect_function_debug_info(
    sources: &Vec<FunctionSource>,
    wasm_file: &Option<FilePath>,
    dwarf_locals: &DwarfLocals,
    interner: &mut Interner,
) -> (infos: Vec<FunctionDebugInfo>)
    requires
        old(interner).wf(),
        old(interner)@.len() + all_new_names(sources@, sources@.len() as int) < u32::MAX,
        forall|i: int|
            0 <= i < sources@.len() ==> names_known(
                (#[trigger] sources@[i]).local_names@,
                old(interner),
            ) && old(interner).knows(sources@[i].name) && all_locals(
                sources@[i].params@,
                sources@[i].decls(),
            ).len() < u32::MAX,
    ensures
        final(interner).wf(),
        final(interner).extends(old(interner)),
        final(interner)@.len() <= old(interner)@.len() + all_new_names(
            sources@,
            sources@.len() as int,
        ),
        infos@.len() == sources@.len(),
        forall|i: int|
            0 <= i < sources@.len() ==> (#[trigger] sources@[i]).described(
                infos@[i],
                *wasm_file,
                dwarf_locals@,
                old(interner),
                final(interner),
            ),
{
    let mut infos: Vec<FunctionDebugInfo> = Vec::new();
    let mut i: usize = 0;
    while i < sources.len()
        invariant
            i <= sources@.len(),
            infos@.len() == i,
            interner.wf(),
            interner.extends(old(interner)),
            interner@.len() <= old(interner)@.len() + all_new_names(sources@, i as int),
            old(interner)@.len() + all_new_names(sources@, sources@.len() as int) < u32::MAX,
            forall|i: int|
                0 <= i < sources@.len() ==> names_known(
                    (#[trigger] sources@[i]).local_names@,
                    old(interner),
                ) && old(interner).knows(sources@[i].name) && all_locals(
                    sources@[i].params@,
                    sources@[i].decls(),
                ).len() < u32::MAX,
            forall|j: int|
                0 <= j < i ==> (#[trigger] sources@[j]).described(
                    infos@[j],
                    *wasm_file,
                    dwarf_locals@,
                    old(interner),
                    interner,
                ),
        decreases sources@.len() - i,
    {
        let source = &sources[i];
        let ghost before = *interner;
        let ghost done = infos@;
        proof {
            names_add_up(sources@, i + 1, sources@.len() as int);
            let known = sources@[i as int].local_names@;
            assert(names_known(known, old(interner)));
            assert forall|k: int| 0 <= k < known.len() implies (#[trigger] known[k] matches Some(
                name,
            ) ==> interner.knows(name)) by {
                assert(known[k] matches Some(name) ==> old(interner).knows(name));
            }
        }
        let info = build_function_debug_info(source, wasm_file, dwarf_locals, interner);
        proof {
            facts_last(
                source,
                info,
                *wasm_file,
                dwarf_locals@,
                old(interner),
                &before,
                interner,
            );
        }
        infos.push(info);
        assert forall|j: int| 0 <= j < i + 1 implies (#[trigger] sources@[j]).described(
            infos@[j],
            *wasm_file,
            dwarf_locals@,
            old(interner),
            interner,
        ) by {
            if j < i {
                assert(infos@[j] == done[j]);
                function_descriptions_last(
                    &sources@[j],
                    done[j],
                    *wasm_file,
                    dwarf_locals@,
                    old(interner),
                    &before,
                    interner,
                );
            }
        }
        i = i + 1;
    }
    infos
}

proof fn counts_are_declared(decls: Seq<LocalDecl>, n: int)
    requires
        0 <= n < decls.len(),
    ensures
        declared(decls.take(n + 1)).len() == declared(decls.take(n)).len() + decls[n].count,
{
    assert(decls.take(n + 1).drop_last() =~= decls.take(n));
    assert(decls.take(n + 1).last() == decls[n]);
}

/// How many names the debug information of a function may add, if its locals can be numbered.
fn count_new_names(source: &FunctionSource) -> (n: Option<u64>)
    ensures
        match n {
            Some(n) => n == source.new_names() && all_locals(source.params@, source.decls()).len()
                < u32::MAX,
            None => all_locals(source.params@, source.decls()).len() >= u32::MAX,
        },
{
    let decls = readable_locals(source.body.as_slice());
    if source.params.len() >= u32::MAX as usize {
        return None;
    }
    let mut total: u64 = source.params.len() as u64;
    let mut i: usize = 0;
    assert(decls@.take(0) =~= Seq::<LocalDecl>::empty());
    while i < decls.len()
        invariant
            i <= decls@.len(),
            decls@ == source.decls(),
            total == source.params@.len() + declared(decls@.take(i as int)).len(),
            total < u32::MAX,
        decreases decls@.len() - i,
    {
        proof {
            counts_are_declared(decls@, i as int);
            declared_grows(decls@, i + 1);
        }
        total = total + decls[i].count as u64;
        i = i + 1;
        if total >= u32::MAX as u64 {
            return None;
        }
    }
    assert(decls@.take(decls@.len() as int) =~= decls@);
    Some(2 * total + 6)
}

/// The locals of every function can be numbered, and there is room for the names of their debug
/// information.
pub open spec fn names_fit(sources: Seq<FunctionSource>, interner: &Interner) -> bool {
    &&& interner@.len() + all_new_names(sources, sources.len() as int) < u32::MAX
    &&& forall|i: int|
        0 <= i < sources.len() ==> all_locals(
            (#[trigger] sources[i]).params@,
            sources[i].decls(),
        ).len() < u32::MAX
}

/// The debug information of every function that is defined in a module; none if there are too many
/// locals to name.
pub fn try_collect_function_debug_info(
    sources: &Vec<FunctionSource>,
    wasm_file: &Option<FilePath>,
    dwarf_locals: &DwarfLocals,
    interner: &mut Interner,
) -> (infos: Option<Vec<FunctionDebugInfo>>)
    requires
        old(interner).wf(),
        forall|i: int|
            0 <= i < sources@.len() ==> names_known(
                (#[trigger] sources@[i]).local_names@,
                old(interner),
            ) && old(interner).knows(sources@[i].name),
    ensures
        final(interner).wf(),
        final(interner).extends(old(interner)),
        final(interner)@.len() <= old(interner)@.len() + all_new_names(
            sources@,
            sources@.len() as int,
        ),
        match infos {
            None => !names_fit(sources@, old(interner)) && *final(interner) == *old(interner),
            Some(infos) => {
                &&& names_fit(sources@, old(interner))
                &&& infos@.len() == sources@.len()
                &&& forall|i: int|
                    0 <= i < sources@.len() ==> (#[trigger] sources@[i]).described(
                        infos@[i],
                        *wasm_file,
                        dwarf_locals@,
                        old(interner),
                        final(interner),
                    )
            },
        },
{
    let mut total: u64 = interner.len() as u64;
    if total >= u32::MAX as u64 {
        return None;
    }
    let mut i: usize = 0;
    while i < sources.len()
        invariant
            i <= sources@.len(),
            total == interner@.len() + all_new_names(sources@, i as int),
            total < u32::MAX,
            forall|j: int|
                0 <= j < i ==> all_locals(
                    (#[trigger] sources@[j]).params@,
                    sources@[j].decls(),
                ).len() < u32::MAX,
            *interner == *old(interner),
            interner.wf(),
        decreases sources@.len() - i,
    {
        match count_new_names(&sources[i]) {
            None => return None,
            Some(n) => {
                total = total + n;
            },
        }
        i = i + 1;
        if total >= u32::MAX as u64 {
            proof {
                names_add_up(sources@, i as int, sources@.len() as int);
            }
            return None;
        }
    }
    Some(collect_function_debug_info(sources, wasm_file, dwarf_locals, interner))
}

} // verus!
