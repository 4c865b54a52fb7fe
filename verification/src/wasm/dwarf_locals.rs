//! The variables of each function, by the local that they are in.
use vstd::prelude::*;
use crate::wasm::dwarf::{
    self, decode_variable_entry, resolve_subprogram_target, DwarfError, DwarfLocalData,
    FunctionTable, LocationDescriptor, Node, Tag, UnitEncoding,
};

verus! {

/// What is known of a local of a function.
pub struct LocalEntry {
    pub function: u32,
    pub local: u32,
    pub data: DwarfLocalData,
}

/// What is known of the locals of functions.
pub struct DwarfLocals {
    entries: Vec<LocalEntry>,
}

/// The entries as a map from functions and locals.
pub open spec fn map_of(entries: Seq<LocalEntry>) -> Map<(u32, u32), dwarf::LocalData>
    decreases entries.len(),
{
    if entries.len() == 0 {
        Map::empty()
    } else {
        let last = entries.last();
        map_of(entries.drop_last()).insert((last.function, last.local), last.data@)
    }
}

/// No local of a function has two entries.
pub open spec fn unique(entries: Seq<LocalEntry>) -> bool {
    forall|i: int, j: int|
        0 <= i < j < entries.len() ==> (#[trigger] entries[i]).function != (
        #[trigger] entries[j]).function || entries[i].local != entries[j].local
}

proof fn map_holds(entries: Seq<LocalEntry>, i: int)
    requires
        unique(entries),
        0 <= i < entries.len(),
    ensures
        map_of(entries).dom().contains((entries[i].function, entries[i].local)),
        map_of(entries)[(entries[i].function, entries[i].local)] == entries[i].data@,
    decreases entries.len(),
{
    if i < entries.len() - 1 {
        let before = entries.drop_last();
        assert(unique(before)) by {
            assert forall|a: int, b: int| 0 <= a < b < before.len() implies (
            #[trigger] before[a]).function != (#[trigger] before[b]).function || before[a].local
                != before[b].local by {
                assert(before[a] == entries[a] && before[b] == entries[b]);
            }
        }
        map_holds(before, i);
        assert(before[i] == entries[i]);
        assert(entries[i].function != entries[entries.len() - 1].function || entries[i].local
            != entries[entries.len() - 1].local);
    }
}

proof fn map_lacks(entries: Seq<LocalEntry>, function: u32, local: u32)
    requires
        forall|i: int|
            0 <= i < entries.len() ==> (#[trigger] entries[i]).function != function
                || entries[i].local != local,
    ensures
        !map_of(entries).dom().contains((function, local)),
    decreases entries.len(),
{
    if entries.len() > 0 {
        let before = entries.drop_last();
        assert forall|i: int| 0 <= i < before.len() implies (#[trigger] before[i]).function
            != function || before[i].local != local by {
            assert(before[i] == entries[i]);
        }
        map_lacks(before, function, local);
        assert(entries[entries.len() - 1].function != function || entries[entries.len() - 1].local
            != local);
    }
}

proof fn map_updates(before: Seq<LocalEntry>, after: Seq<LocalEntry>, at: int)
    requires
        unique(before),
        0 <= at < before.len(),
        before.len() == after.len(),
        forall|i: int| 0 <= i < before.len() && i != at ==> #[trigger] after[i] == before[i],
        after[at].function == before[at].function,
        after[at].local == before[at].local,
    ensures
        map_of(after) == map_of(before).insert(
            (before[at].function, before[at].local),
            after[at].data@,
        ),
    decreases before.len(),
{
    let a = before.drop_last();
    let b = after.drop_last();
    if at == before.len() - 1 {
        assert(a == b);
        assert(map_of(after) =~= map_of(before).insert(
            (before[at].function, before[at].local),
            after[at].data@,
        ));
    } else {
        assert(unique(a)) by {
            assert forall|i: int, j: int| 0 <= i < j < a.len() implies (#[trigger] a[i]).function
                != (#[trigger] a[j]).function || a[i].local != a[j].local by {
                assert(a[i] == before[i] && a[j] == before[j]);
            }
        }
        map_updates(a, b, at);
        let last = before[before.len() - 1];
        assert(after[after.len() - 1] == last);
        assert(before[at].function != last.function || before[at].local != last.local);
        assert(map_of(after) =~= map_of(before).insert(
            (before[at].function, before[at].local),
            after[at].data@,
        ));
    }
}

/// The first of two values that is there.
pub open spec fn either<T>(first: Option<T>, second: Option<T>) -> Option<T> {
    if first is Some {
        first
    } else {
        second
    }
}

/// What is known of a local, with what another entry says of it.
pub open spec fn merged(known: dwarf::LocalData, more: dwarf::LocalData) -> dwarf::LocalData {
    dwarf::LocalData {
        name: either(known.name, more.name),
        locations: known.locations + more.locations,
        decl_line: either(known.decl_line, more.decl_line),
        decl_column: either(known.decl_column, more.decl_column),
    }
}

/// The locals of functions, with what another entry says of one.
pub open spec fn recorded(
    locals: Map<(u32, u32), dwarf::LocalData>,
    function: u32,
    local: u32,
    data: dwarf::LocalData,
) -> Map<(u32, u32), dwarf::LocalData> {
    if locals.dom().contains((function, local)) {
        locals.insert((function, local), merged(locals[(function, local)], data))
    } else {
        locals.insert((function, local), data)
    }
}

fn copy_locations(list: &Vec<LocationDescriptor>, out: &mut Vec<LocationDescriptor>)
    ensures
        final(out)@ == old(out)@ + list@,
{
    let mut i: usize = 0;
    while i < list.len()
        invariant
            i <= list@.len(),
            out@ == old(out)@ + list@.take(i as int),
        decreases list@.len() - i,
    {
        out.push(list[i]);
        assert(list@.take(i + 1) == list@.take(i as int).push(list@[i as int]));
        i = i + 1;
        assert(out@ == old(out)@ + list@.take(i as int));
    }
    assert(list@.take(list@.len() as int) == list@);
}

impl View for DwarfLocals {
    type V = Map<(u32, u32), dwarf::LocalData>;

    closed spec fn view(&self) -> Map<(u32, u32), dwarf::LocalData> {
        map_of(self.entries@)
    }
}

impl DwarfLocals {
    #[verifier::type_invariant]
    spec fn inv(&self) -> bool {
        unique(self.entries@)
    }

    /// Nothing is known.
    pub fn new() -> (locals: DwarfLocals)
        ensures
            locals@ == Map::<(u32, u32), dwarf::LocalData>::empty(),
    {
        DwarfLocals { entries: Vec::new() }
    }

    fn position(&self, function: u32, local: u32) -> (at: Option<usize>)
        ensures
            match at {
                Some(at) => at < self.entries@.len() && self.entries@[at as int].function
                    == function && self.entries@[at as int].local == local,
                None => forall|i: int|
                    0 <= i < self.entries@.len() ==> (#[trigger] self.entries@[i]).function
                        != function || self.entries@[i].local != local,
            },
    {
        let mut i: usize = 0;
        while i < self.entries.len()
            invariant
                i <= self.entries@.len(),
                forall|j: int|
                    0 <= j < i ==> (#[trigger] self.entries@[j]).function != function
                        || self.entries@[j].local != local,
            decreases self.entries@.len() - i,
        {
            if self.entries[i].function == function && self.entries[i].local == local {
                return Some(i);
            }
            i = i + 1;
        }
        None
    }

    /// What is known of a local.
    pub fn get(&self, function: u32, local: u32) -> (data: Option<&DwarfLocalData>)
        ensures
            match data {
                Some(data) => self@.dom().contains((function, local)) && data@ == self@[(
                    function,
                    local,
                )],
                None => !self@.dom().contains((function, local)),
            },
    {
        proof {
            use_type_invariant(self);
        }
        match self.position(function, local) {
            Some(at) => {
                proof {
                    map_holds(self.entries@, at as int);
                }
                Some(&self.entries[at].data)
            },
            None => {
                proof {
                    map_lacks(self.entries@, function, local);
                }
                None
            },
        }
    }

    /// Adds what an entry says of a local.
    pub fn record(&mut self, function: u32, local: u32, data: DwarfLocalData)
        ensures
            final(self)@ == recorded(old(self)@, function, local, data@),
    {
        proof {
            use_type_invariant(&*self);
        }
        let ghost before = self.entries@;
        match self.position(function, local) {
            Some(at) => {
                proof {
                    map_holds(before, at as int);
                }
                let mut entries: Vec<LocalEntry> = Vec::new();
                core::mem::swap(&mut entries, &mut self.entries);
                let known = &entries[at].data;
                let name: Option<String> = match &known.name {
                    Some(name) => Some(name.as_str().to_owned()),
                    None => match &data.name {
                        Some(name) => Some(name.as_str().to_owned()),
                        None => None,
                    },
                };
                let decl_line = if known.decl_line.is_some() {
                    known.decl_line
                } else {
                    data.decl_line
                };
                let decl_column = if known.decl_column.is_some() {
                    known.decl_column
                } else {
                    data.decl_column
                };
                let mut locations: Vec<LocationDescriptor> = Vec::new();
                copy_locations(&known.locations, &mut locations);
                copy_locations(&data.locations, &mut locations);
                let both = DwarfLocalData { name, locations, decl_line, decl_column };
                assert(both@ =~= merged(before[at as int].data@, data@));
                entries.set(at, LocalEntry { function, local, data: both });
                proof {
                    map_updates(before, entries@, at as int);
                    assert(unique(entries@)) by {
                        assert forall|i: int, j: int| 0 <= i < j < entries@.len() implies (
                        #[trigger] entries@[i]).function != (#[trigger] entries@[j]).function
                            || entries@[i].local != entries@[j].local by {
                            assert(before[i].function != before[j].function || before[i].local
                                != before[j].local);
                        }
                    }
                }
                self.entries = entries;
            },
            None => {
                proof {
                    map_lacks(before, function, local);
                }
                let mut entries: Vec<LocalEntry> = Vec::new();
                core::mem::swap(&mut entries, &mut self.entries);
                entries.push(LocalEntry { function, local, data });
                assert(entries@.drop_last() == before);
                self.entries = entries;
            },
        }
    }
}

/// The locals after the variables of an entry and of those below it, and whether all of them
/// could be read.
pub open spec fn walked(
    node: Node,
    encoding: UnitEncoding,
    function: u32,
    low: u64,
    high: Option<u64>,
    locals: Map<(u32, u32), dwarf::LocalData>,
) -> (Map<(u32, u32), dwarf::LocalData>, bool)
    decreases node, node.children@.len() + 1,
{
    if node.tag == Tag::FormalParameter || node.tag == Tag::Variable {
        match dwarf::variable_in(node.attrs@, node.attrs_complete, encoding, low, high) {
            Err(_) => (locals, false),
            Ok(None) => walked_below(node, node.children@.len(), encoding, function, low, high, locals),
            Ok(Some((local, data))) => walked_below(
                node,
                node.children@.len(),
                encoding,
                function,
                low,
                high,
                recorded(locals, function, local, data),
            ),
        }
    } else {
        walked_below(node, node.children@.len(), encoding, function, low, high, locals)
    }
}

/// The locals after the variables of the first `n` entries below one.
pub open spec fn walked_below(
    node: Node,
    n: nat,
    encoding: UnitEncoding,
    function: u32,
    low: u64,
    high: Option<u64>,
    locals: Map<(u32, u32), dwarf::LocalData>,
) -> (Map<(u32, u32), dwarf::LocalData>, bool)
    decreases node, n,
{
    if n == 0 || n > node.children@.len() {
        (locals, node.children@.len() > 0 || node.children_complete)
    } else {
        let (before, ok) = walked_below(
            node,
            (n - 1) as nat,
            encoding,
            function,
            low,
            high,
            locals,
        );
        if !ok {
            (before, false)
        } else {
            let (after, ok) = walked(node.children@[n - 1], encoding, function, low, high, before);
            (after, ok && (n < node.children@.len() || node.children_complete))
        }
    }
}

/// Adds what an entry and those below it say of variables.
pub fn walk_variable_nodes(
    node: &Node,
    encoding: UnitEncoding,
    function: u32,
    low: u64,
    high: Option<u64>,
    locals: &mut DwarfLocals,
) -> (result: Result<(), DwarfError>)
    ensures
        (final(locals)@, result is Ok) == walked(*node, encoding, function, low, high, old(locals)@),
    decreases node, node.children@.len() + 1,
{
    if node.tag == Tag::FormalParameter || node.tag == Tag::Variable {
        match decode_variable_entry(node, encoding, low, high) {
            Err(e) => return Err(e),
            Ok(None) => {},
            Ok(Some((local, data))) => locals.record(function, local, data),
        }
    }
    walk_children(node, encoding, function, low, high, locals)
}

fn walk_children(
    node: &Node,
    encoding: UnitEncoding,
    function: u32,
    low: u64,
    high: Option<u64>,
    locals: &mut DwarfLocals,
) -> (result: Result<(), DwarfError>)
    ensures
        (final(locals)@, result is Ok) == walked_below(
            *node,
            node.children@.len(),
            encoding,
            function,
            low,
            high,
            old(locals)@,
        ),
    decreases node, node.children@.len(),
{
    let mut i: usize = 0;
    while i < node.children.len()
        invariant
            i <= node.children@.len(),
            (locals@, i < node.children@.len() || node.children_complete) == walked_below(
                *node,
                i as nat,
                encoding,
                function,
                low,
                high,
                old(locals)@,
            ),
        decreases node.children@.len() - i,
    {
        match walk_variable_nodes(&node.children[i], encoding, function, low, high, locals) {
            Err(e) => {
                proof {
                    failures_stay(*node, (i + 1) as nat, encoding, function, low, high, old(locals)@);
                }
                return Err(e);
            },
            Ok(_) => {},
        }
        i = i + 1;
    }
    if node.children_complete {
        Ok(())
    } else {
        Err(DwarfError {  })
    }
}

proof fn failures_stay(
    node: Node,
    n: nat,
    encoding: UnitEncoding,
    function: u32,
    low: u64,
    high: Option<u64>,
    locals: Map<(u32, u32), dwarf::LocalData>,
)
    requires
        n <= node.children@.len(),
        !walked_below(node, n, encoding, function, low, high, locals).1,
    ensures
        walked_below(node, node.children@.len(), encoding, function, low, high, locals)
            == walked_below(node, n, encoding, function, low, high, locals),
    decreases node.children@.len() - n,
{
    if n < node.children@.len() {
        failures_stay(node, n + 1, encoding, function, low, high, locals);
    }
}

/// Adds what the entries below a subprogram say of its variables.
pub fn collect_subprogram_variables(
    node: &Node,
    encoding: UnitEncoding,
    function: u32,
    low: u64,
    high: Option<u64>,
    locals: &mut DwarfLocals,
) -> (result: Result<(), DwarfError>)
    ensures
        (final(locals)@, result is Ok) == walked_below(
            *node,
            node.children@.len(),
            encoding,
            function,
            low,
            high,
            old(locals)@,
        ),
{
    walk_children(node, encoding, function, low, high, locals)
}

/// The locals after the variables of a subprogram, if the entry is one of a known function.
pub open spec fn subprogram_collected(
    node: Node,
    encoding: UnitEncoding,
    table: &FunctionTable,
    locals: Map<(u32, u32), dwarf::LocalData>,
) -> Map<(u32, u32), dwarf::LocalData> {
    if node.tag == Tag::Subprogram {
        match table.target(node.attrs@) {
            Some((function, low, high)) => walked_below(
                node,
                node.children@.len(),
                encoding,
                function,
                low,
                high,
                locals,
            ).0,
            None => locals,
        }
    } else {
        locals
    }
}

/// The locals after the subprograms among an entry and those below it, and whether the entries
/// could be read.
pub open spec fn collected(
    node: Node,
    encoding: UnitEncoding,
    table: &FunctionTable,
    locals: Map<(u32, u32), dwarf::LocalData>,
) -> (Map<(u32, u32), dwarf::LocalData>, bool)
    decreases node, node.children@.len() + 1,
{
    collected_below(
        node,
        node.children@.len(),
        encoding,
        table,
        subprogram_collected(node, encoding, table, locals),
    )
}

/// The locals after the subprograms among the first `n` entries below one.
pub open spec fn collected_below(
    node: Node,
    n: nat,
    encoding: UnitEncoding,
    table: &FunctionTable,
    locals: Map<(u32, u32), dwarf::LocalData>,
) -> (Map<(u32, u32), dwarf::LocalData>, bool)
    decreases node, n,
{
    if n == 0 || n > node.children@.len() {
        (locals, node.children@.len() > 0 || node.children_complete)
    } else {
        let (before, ok) = collected_below(node, (n - 1) as nat, encoding, table, locals);
        if !ok {
            (before, false)
        } else {
            let (after, ok) = collected(node.children@[n - 1], encoding, table, before);
            (after, ok && (n < node.children@.len() || node.children_complete))
        }
    }
}

proof fn stops_stay(
    node: Node,
    n: nat,
    encoding: UnitEncoding,
    table: &FunctionTable,
    locals: Map<(u32, u32), dwarf::LocalData>,
)
    requires
        n <= node.children@.len(),
        !collected_below(node, n, encoding, table, locals).1,
    ensures
        collected_below(node, node.children@.len(), encoding, table, locals) == collected_below(
            node,
            n,
            encoding,
            table,
            locals,
        ),
    decreases node.children@.len() - n,
{
    if n < node.children@.len() {
        stops_stay(node, n + 1, encoding, table, locals);
    }
}

fn collect_node(
    node: &Node,
    encoding: UnitEncoding,
    table: &FunctionTable,
    locals: &mut DwarfLocals,
) -> (complete: bool)
    requires
        table.names@.len() <= u32::MAX,
    ensures
        (final(locals)@, complete) == collected(*node, encoding, table, old(locals)@),
    decreases node,
{
    if node.tag == Tag::Subprogram {
        if let Some((function, low, high)) = resolve_subprogram_target(table, &node.attrs) {
            let _ = collect_subprogram_variables(node, encoding, function, low, high, locals);
        }
    }
    let ghost start = locals@;
    assert(start == subprogram_collected(*node, encoding, table, old(locals)@));
    let mut i: usize = 0;
    while i < node.children.len()
        invariant
            i <= node.children@.len(),
            table.names@.len() <= u32::MAX,
            start == subprogram_collected(*node, encoding, table, old(locals)@),
            (locals@, i < node.children@.len() || node.children_complete) == collected_below(
                *node,
                i as nat,
                encoding,
                table,
                start,
            ),
        decreases node.children@.len() - i,
    {
        if !collect_node(&node.children[i], encoding, table, locals) {
            proof {
                stops_stay(*node, (i + 1) as nat, encoding, table, start);
            }
            return false;
        }
        i = i + 1;
    }
    node.children_complete
}

/// The entries of a compilation unit.
pub struct Unit {
    pub encoding: UnitEncoding,
    pub root: Node,
}

/// The locals after the first `n` units. What cannot be read in one unit does not keep the
/// others from being read.
pub open spec fn units_collected(units: Seq<Unit>, n: int, table: &FunctionTable) -> Map<
    (u32, u32),
    dwarf::LocalData,
>
    decreases n,
{
    if n <= 0 {
        Map::empty()
    } else {
        let unit = units[n - 1];
        collected(unit.root, unit.encoding, table, units_collected(units, n - 1, table)).0
    }
}

/// What the debug information of a module says of the locals of its functions.
pub fn collect_dwarf_local_data(units: &Vec<Unit>, table: &FunctionTable) -> (locals: DwarfLocals)
    requires
        table.names@.len() <= u32::MAX,
    ensures
        locals@ == units_collected(units@, units@.len() as int, table),
{
    let mut locals = DwarfLocals::new();
    let mut i: usize = 0;
    while i < units.len()
        invariant
            i <= units@.len(),
            table.names@.len() <= u32::MAX,
            locals@ == units_collected(units@, i as int, table),
        decreases units@.len() - i,
    {
        let _ = collect_node(&units[i].root, units[i].encoding, table, &mut locals);
        i = i + 1;
    }
    locals
}

} // verus!
