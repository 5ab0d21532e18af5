//! Matching a shader's input interface against the vertex types of two
//! vertex buffers, and sizing a draw from the buffers supplied.

use crate::format::Format;
use crate::resource::BufferHandle;
use vstd::prelude::*;

verus! {

/// Whether a vertex buffer advances once per vertex or once per instance.
#[derive(Clone, Copy, Debug, PartialEq, Eq, Structural)]
pub enum InputRate {
    Vertex,
    Instance,
}

/// Where a named member lies in one vertex record and what it holds:
/// `array_size` consecutive values of format `ty`, starting `offset` bytes
/// into the record.
#[derive(Clone, Copy, Debug, PartialEq, Eq, Structural)]
pub struct VertexMemberInfo {
    pub offset: usize,
    pub ty: Format,
    pub array_size: usize,
}

/// One entry of a vertex type's member table.
#[derive(Clone, Debug, PartialEq, Eq)]
pub struct VertexMember {
    pub name: String,
    pub info: VertexMemberInfo,
}

pub struct VertexMemberView {
    pub name: Seq<char>,
    pub info: VertexMemberInfo,
}

impl View for VertexMember {
    type V = VertexMemberView;

    open spec fn view(&self) -> VertexMemberView {
        VertexMemberView { name: self.name@, info: self.info }
    }
}

/// One input that a shader stage declares: the locations `location_start`
/// up to, not including, `location_end`, each holding a value of `format`.
#[derive(Clone, Debug, PartialEq, Eq)]
pub struct ShaderInterfaceElement {
    pub name: Option<String>,
    pub location_start: u32,
    pub location_end: u32,
    pub format: Format,
}

pub struct ShaderInterfaceElementView {
    pub name: Option<Seq<char>>,
    pub location_start: u32,
    pub location_end: u32,
    pub format: Format,
}

impl View for ShaderInterfaceElement {
    type V = ShaderInterfaceElementView;

    open spec fn view(&self) -> ShaderInterfaceElementView {
        ShaderInterfaceElementView {
            name: match self.name {
                Some(n) => Some(n@),
                None => None,
            },
            location_start: self.location_start,
            location_end: self.location_end,
            format: self.format,
        }
    }
}

/// Where the shader input at `location` is read from: `offset` bytes into
/// each record of the buffer `buffer_index`, as a value of `format`.
#[derive(Clone, Copy, Debug, PartialEq, Eq, Structural)]
pub struct AttributeBinding {
    pub location: u32,
    pub buffer_index: u32,
    pub offset: usize,
    pub format: Format,
}

/// How the buffer `buffer_index` is stepped through: `stride` bytes per
/// record, one record per vertex or per instance.
#[derive(Clone, Copy, Debug, PartialEq, Eq, Structural)]
pub struct BufferBinding {
    pub buffer_index: u32,
    pub stride: usize,
    pub rate: InputRate,
}

/// Why a pair of vertex types cannot feed a shader interface.
#[derive(Debug, PartialEq, Eq)]
pub enum IncompatibleVertexDefinitionError {
    /// No vertex type has a member of that name.
    MissingAttribute { attribute: String },
    /// The member exists, but holds something other than what the shader
    /// reads: `shader` is the format and the number of locations that the
    /// shader declares, `definition` the format and array size of the member.
    FormatMismatch { attribute: String, shader: (Format, usize), definition: (Format, usize) },
}

pub enum IncompatibilityView {
    MissingAttribute { attribute: Seq<char> },
    FormatMismatch { attribute: Seq<char>, shader: (Format, usize), definition: (Format, usize) },
}

impl View for IncompatibleVertexDefinitionError {
    type V = IncompatibilityView;

    open spec fn view(&self) -> IncompatibilityView {
        match *self {
            IncompatibleVertexDefinitionError::MissingAttribute { attribute } => {
                IncompatibilityView::MissingAttribute { attribute: attribute@ }
            },
            IncompatibleVertexDefinitionError::FormatMismatch { attribute, shader, definition } => {
                IncompatibilityView::FormatMismatch { attribute: attribute@, shader, definition }
            },
        }
    }
}

/// The first entry of the table that carries `name`, if any does.
pub open spec fn find_member(members: Seq<VertexMemberView>, name: Seq<char>) -> Option<
    VertexMemberInfo,
>
    decreases members.len(),
{
    if members.len() == 0 {
        None
    } else if members[0].name == name {
        Some(members[0].info)
    } else {
        find_member(members.drop_first(), name)
    }
}

/// The member found under a name is that of the first entry of the table
/// with the name; a name that is not found is on no entry.
pub proof fn lemma_find_member_first(members: Seq<VertexMemberView>, name: Seq<char>)
    ensures
        match find_member(members, name) {
            Some(info) => exists|i: int|
                {
                    &&& 0 <= i < members.len()
                    &&& (#[trigger] members[i]).name == name
                    &&& members[i].info == info
                    &&& forall|j: int| 0 <= j < i ==> (#[trigger] members[j]).name != name
                },
            None => forall|j: int| 0 <= j < members.len() ==> (#[trigger] members[j]).name != name,
        },
    decreases members.len(),
{
    if members.len() > 0 {
        let rest = members.drop_first();
        lemma_find_member_first(rest, name);
        if members[0].name == name {
            assert(forall|j: int| 0 <= j < 0 ==> (#[trigger] members[j]).name != name);
        } else {
            match find_member(rest, name) {
                Some(info) => {
                    let i = choose|i: int|
                        {
                            &&& 0 <= i < rest.len()
                            &&& (#[trigger] rest[i]).name == name
                            &&& rest[i].info == info
                            &&& forall|j: int| 0 <= j < i ==> (#[trigger] rest[j]).name != name
                        };
                    assert(members[i + 1] == rest[i]);
                    assert forall|j: int| 0 <= j < i + 1 implies (#[trigger] members[j]).name != name by {
                        if j > 0 {
                            assert(members[j] == rest[j - 1]);
                        }
                    }
                },
                None => {
                    assert forall|j: int|
                        0 <= j < members.len() implies (#[trigger] members[j]).name != name by {
                        if j > 0 {
                            assert(members[j] == rest[j - 1]);
                        }
                    }
                },
            }
        }
    }
}

/// A member of a sized format ends inside a record of `size` bytes.
pub open spec fn member_fits(info: VertexMemberInfo, size: usize) -> bool {
    match info.ty.size_spec() {
        Some(bytes) => info.offset + info.array_size * bytes <= size,
        None => true,
    }
}

/// Every member of the table lies inside a record of `size` bytes.
pub open spec fn members_fit(members: Seq<VertexMemberView>, size: usize) -> bool {
    forall|i: int| 0 <= i < members.len() ==> member_fits(#[trigger] members[i].info, size)
}

/// The member holds what a shader input of `format` spanning `locations`
/// locations reads: both the member's type and the format have a defined
/// size, and the member's values take up as many bytes as the locations
/// read. Neither the two formats nor the two counts need be equal: four
/// values of four bytes feed two locations of eight bytes each.
pub open spec fn member_matches(info: VertexMemberInfo, format: Format, locations: int) -> bool {
    match (info.ty.size_spec(), format.size_spec()) {
        (Some(member_bytes), Some(format_bytes)) => info.array_size * member_bytes == locations
            * format_bytes,
        _ => false,
    }
}

impl VertexMemberInfo {
    /// Whether the member holds exactly the bytes that a shader input of
    /// `format` spanning `locations` locations reads.
    pub fn matches(&self, format: Format, locations: u32) -> (ok: bool)
        ensures
            ok == member_matches(*self, format, locations as int),
    {
        match (self.ty.size(), format.size()) {
            (Some(member_bytes), Some(format_bytes)) => {
                proof {
                    self.ty.lemma_size_bounds();
                    format.lemma_size_bounds();
                    assert(self.array_size * member_bytes <= usize::MAX * 32) by (nonlinear_arith)
                        requires
                            self.array_size <= usize::MAX,
                            0 <= member_bytes <= 32,
                    ;
                    assert(locations * format_bytes <= u32::MAX * 32) by (nonlinear_arith)
                        requires
                            locations <= u32::MAX,
                            0 <= format_bytes <= 32,
                    ;
                }
                let held: u128 = self.array_size as u128 * member_bytes as u128;
                let read: u128 = locations as u128 * format_bytes as u128;
                held == read
            },
            _ => false,
        }
    }
}

/// The description of one vertex type: its member table and the size in
/// bytes of one record. Every member of a sized format lies inside the record.
#[derive(Debug, PartialEq, Eq)]
pub struct VertexType {
    members: Vec<VertexMember>,
    size: usize,
}

pub struct VertexTypeView {
    pub members: Seq<VertexMemberView>,
    pub size: usize,
}

/// The entries of a member table, each as its view.
pub open spec fn member_table(members: Seq<VertexMember>) -> Seq<VertexMemberView> {
    members.map_values(|m: VertexMember| m@)
}

impl View for VertexType {
    type V = VertexTypeView;

    closed spec fn view(&self) -> VertexTypeView {
        VertexTypeView {
            members: member_table(self.members@),
            size: self.size,
        }
    }
}

/// Whether a member ends inside a record of `size` bytes.
fn fits_in_record(info: &VertexMemberInfo, size: usize) -> (ok: bool)
    ensures
        ok == member_fits(*info, size),
{
    match info.ty.size() {
        None => true,
        Some(bytes) => {
            proof {
                info.ty.lemma_size_bounds();
                assert(info.array_size * bytes <= usize::MAX * 32) by (nonlinear_arith)
                    requires
                        info.array_size <= usize::MAX,
                        0 <= bytes <= 32,
                ;
            }
            let end: u128 = info.offset as u128 + info.array_size as u128 * bytes as u128;
            end <= size as u128
        },
    }
}

impl VertexType {
    #[verifier::type_invariant]
    spec fn inv(self) -> bool {
        members_fit(self@.members, self@.size)
    }

    /// Describes a vertex type whose records are `size` bytes long. `None`
    /// when a member of a sized format would end past the record.
    pub fn new(size: usize, members: Vec<VertexMember>) -> (r: Option<VertexType>)
        ensures
            r is Some <==> members_fit(member_table(members@), size),
            r is Some ==> r.unwrap()@ == (VertexTypeView { members: member_table(members@), size }),
    {
        let ghost table = member_table(members@);
        let mut i: usize = 0;
        while i < members.len()
            invariant
                i <= members.len(),
                table == member_table(members@),
                forall|j: int| 0 <= j < i ==> member_fits(#[trigger] table[j].info, size),
            decreases members.len() - i,
        {
            if !fits_in_record(&members[i].info, size) {
                assert(table[i as int].info == members[i as int].info);
                return None;
            }
            assert(table[i as int].info == members[i as int].info);
            i += 1;
        }
        Some(VertexType { members, size })
    }

    /// The size in bytes of one record.
    pub fn size(&self) -> (bytes: usize)
        ensures
            bytes == self@.size,
    {
        self.size
    }

    /// The member called `name`: the first of that name in the table, which
    /// lies inside the record if its format is sized.
    pub fn member(&self, name: &String) -> (r: Option<VertexMemberInfo>)
        ensures
            r == find_member(self@.members, name@),
            r is Some ==> member_fits(r.unwrap(), self@.size),
    {
        proof {
            use_type_invariant(self);
        }
        let ghost table = self@.members;
        let mut i: usize = 0;
        assert(table.skip(0) =~= table);
        while i < self.members.len()
            invariant
                i <= self.members.len(),
                table == self@.members,
                members_fit(table, self@.size),
                table.len() == self.members.len(),
                find_member(table, name@) == find_member(table.skip(i as int), name@),
            decreases self.members.len() - i,
        {
            assert(table.skip(i as int)[0] == self.members[i as int]@);
            if self.members[i].name == *name {
                assert(table[i as int].info == self.members[i as int].info);
                return Some(self.members[i].info);
            }
            assert(table.skip(i as int).drop_first() =~= table.skip(i as int + 1));
            i += 1;
        }
        None
    }
}

/// The vertex types of a list, each as its view.
pub open spec fn type_views(types: Seq<VertexType>) -> Seq<VertexTypeView> {
    types.map_values(|t: VertexType| t@)
}

/// Which vertex type of a group supplies `name`, and the member found
/// there. The types are asked in group order and the first that has a
/// member of that name supplies it, whatever the later ones hold.
pub open spec fn resolve(types: Seq<VertexTypeView>, name: Seq<char>) -> Option<
    (u32, VertexMemberInfo),
>
    decreases types.len(),
{
    if types.len() == 0 {
        None
    } else {
        match resolve(types.drop_last(), name) {
            Some(found) => Some(found),
            None => match find_member(types.last().members, name) {
                Some(info) => Some(((types.len() - 1) as u32, info)),
                None => None,
            },
        }
    }
}

/// One binding per location of the element, in rising order of location; the
/// binding of the `k`-th location reads `k` values of the element's format
/// past the member's offset.
pub open spec fn element_attributes(
    element: ShaderInterfaceElementView,
    buffer_index: u32,
    info: VertexMemberInfo,
) -> Seq<AttributeBinding> {
    Seq::new(
        (element.location_end - element.location_start) as nat,
        |k: int|
            AttributeBinding {
                location: (element.location_start + k) as u32,
                buffer_index,
                offset: (info.offset + k * element.format.size_spec().unwrap()) as usize,
                format: element.format,
            },
    )
}

/// What one element of the interface resolves to: its bindings, or the
/// reason why the vertex types cannot feed it.
pub open spec fn reconcile_element(
    types: Seq<VertexTypeView>,
    element: ShaderInterfaceElementView,
) -> Result<Seq<AttributeBinding>, IncompatibilityView> {
    let name = element.name.unwrap();
    let locations = element.location_end - element.location_start;
    match resolve(types, name) {
        None => Err(IncompatibilityView::MissingAttribute { attribute: name }),
        Some((buffer_index, info)) => if member_matches(info, element.format, locations) {
            Ok(element_attributes(element, buffer_index, info))
        } else {
            Err(
                IncompatibilityView::FormatMismatch {
                    attribute: name,
                    shader: (element.format, locations as usize),
                    definition: (info.ty, info.array_size),
                },
            )
        },
    }
}

/// The bindings of a whole interface: those of its elements, in declared
/// order, or the failure of the first element that fails.
pub open spec fn reconcile(
    types: Seq<VertexTypeView>,
    elements: Seq<ShaderInterfaceElementView>,
) -> Result<Seq<AttributeBinding>, IncompatibilityView>
    decreases elements.len(),
{
    if elements.len() == 0 {
        Ok(Seq::empty())
    } else {
        match reconcile(types, elements.drop_last()) {
            Err(e) => Err(e),
            Ok(before) => match reconcile_element(types, elements.last()) {
                Err(e) => Err(e),
                Ok(bindings) => Ok(before + bindings),
            },
        }
    }
}

/// One binding per vertex type, in group order: the buffer of the `k`-th
/// type has index `k`, steps by the size of that type's record, and
/// advances once per vertex.
pub open spec fn buffer_bindings(types: Seq<VertexTypeView>) -> Seq<BufferBinding> {
    Seq::new(
        types.len(),
        |k: int| BufferBinding { buffer_index: k as u32, stride: types[k].size, rate: InputRate::Vertex },
    )
}

/// What reconciling an element takes for granted: the element has a name
/// and a location range that does not run backwards. A format without a
/// defined size needs no such care: no member matches it.
pub open spec fn element_valid(element: ShaderInterfaceElementView) -> bool {
    &&& element.name is Some
    &&& element.location_start <= element.location_end
}

/// Every element of the interface is valid.
pub open spec fn interface_valid(elements: Seq<ShaderInterfaceElementView>) -> bool {
    forall|i: int| 0 <= i < elements.len() ==> element_valid(#[trigger] elements[i])
}

/// What reconciling an interface against `types` takes for granted: each
/// element that is reached, which is each up to and including the first
/// that fails, is valid.
pub open spec fn interface_reconcilable(
    types: Seq<VertexTypeView>,
    elements: Seq<ShaderInterfaceElementView>,
) -> bool {
    forall|i: int|
        0 <= i < elements.len() && reconcile(types, elements.take(i)) is Ok ==> element_valid(
            #[trigger] elements[i],
        )
}

/// An interface of valid elements can be reconciled against any vertex types.
pub proof fn lemma_valid_is_reconcilable(
    types: Seq<VertexTypeView>,
    elements: Seq<ShaderInterfaceElementView>,
)
    requires
        interface_valid(elements),
    ensures
        interface_reconcilable(types, elements),
{
    assert forall|i: int|
        0 <= i < elements.len() && reconcile(types, elements.take(i)) is Ok implies element_valid(
        #[trigger] elements[i],
    ) by {}
}

/// The elements of an interface, each as its view.
pub open spec fn interface_view(elements: Seq<ShaderInterfaceElement>) -> Seq<
    ShaderInterfaceElementView,
> {
    elements.map_values(|e: ShaderInterfaceElement| e@)
}

/// A name that some of the first `n` types supply is supplied by the same
/// type, with the same member, in the whole group.
pub proof fn lemma_earlier_type_wins(types: Seq<VertexTypeView>, name: Seq<char>, n: int)
    requires
        0 <= n <= types.len(),
        resolve(types.take(n), name) is Some,
    ensures
        resolve(types, name) == resolve(types.take(n), name),
    decreases types.len(),
{
    if n == types.len() {
        assert(types.take(n) =~= types);
    } else {
        assert(types.drop_last().take(n) =~= types.take(n));
        lemma_earlier_type_wins(types.drop_last(), name, n);
    }
}

/// The type that supplies a name is the first in the group that has a
/// member of that name, and the member is the one found in its table; a
/// name that no type supplies is in no table.
pub proof fn lemma_resolve_first_match(types: Seq<VertexTypeView>, name: Seq<char>)
    requires
        types.len() <= u32::MAX,
    ensures
        match resolve(types, name) {
            Some((index, info)) => {
                &&& index < types.len()
                &&& find_member(types[index as int].members, name) == Some(info)
                &&& forall|j: int|
                    0 <= j < index ==> find_member(#[trigger] types[j].members, name) is None
            },
            None => forall|j: int|
                0 <= j < types.len() ==> find_member(#[trigger] types[j].members, name) is None,
        },
    decreases types.len(),
{
    if types.len() > 0 {
        let before = types.drop_last();
        lemma_resolve_first_match(before, name);
        match resolve(before, name) {
            Some((index, info)) => {
                assert(before[index as int] == types[index as int]);
                assert forall|j: int| 0 <= j < index implies find_member(
                    #[trigger] types[j].members,
                    name,
                ) is None by {
                    assert(before[j] == types[j]);
                }
            },
            None => {
                assert forall|j: int| 0 <= j < types.len() - 1 implies find_member(
                    #[trigger] types[j].members,
                    name,
                ) is None by {
                    assert(before[j] == types[j]);
                }
            },
        }
    }
}

/// With two vertex types the first is asked first, and the second only
/// where the first has no member of that name; their buffers are 0 and 1.
pub proof fn lemma_two_types(first: VertexTypeView, second: VertexTypeView, name: Seq<char>)
    ensures
        resolve(seq![first, second], name) == match find_member(first.members, name) {
            Some(info) => Some((0u32, info)),
            None => match find_member(second.members, name) {
                Some(info) => Some((1u32, info)),
                None => None,
            },
        },
        buffer_bindings(seq![first, second]) == seq![
            BufferBinding { buffer_index: 0, stride: first.size, rate: InputRate::Vertex },
            BufferBinding { buffer_index: 1, stride: second.size, rate: InputRate::Vertex },
        ],
{
    let both = seq![first, second];
    let one = both.drop_last();
    assert(one.len() == 1 && one.last() == first && both.last() == second);
    assert(resolve(one.drop_last(), name) is None);
    assert(resolve(one, name) == match find_member(first.members, name) {
        Some(info) => Some((0u32, info)),
        None => None,
    });
    assert(buffer_bindings(both) =~= seq![
        BufferBinding { buffer_index: 0, stride: first.size, rate: InputRate::Vertex },
        BufferBinding { buffer_index: 1, stride: second.size, rate: InputRate::Vertex },
    ]);
}

/// Once a prefix of an interface fails, the whole interface fails the same way.
pub proof fn lemma_first_failure_stands(
    types: Seq<VertexTypeView>,
    elements: Seq<ShaderInterfaceElementView>,
    n: int,
)
    requires
        0 <= n <= elements.len(),
        reconcile(types, elements.take(n)) is Err,
    ensures
        reconcile(types, elements) == reconcile(types, elements.take(n)),
    decreases elements.len(),
{
    if n == elements.len() {
        assert(elements.take(n) =~= elements);
    } else {
        assert(elements.drop_last().take(n) =~= elements.take(n));
        lemma_first_failure_stands(types, elements.drop_last(), n);
    }
}

/// An interface is reconciled exactly when each of its elements is: none is
/// passed over.
pub proof fn lemma_success_needs_every_element(
    types: Seq<VertexTypeView>,
    elements: Seq<ShaderInterfaceElementView>,
)
    ensures
        reconcile(types, elements) is Ok <==> forall|i: int|
            0 <= i < elements.len() ==> reconcile_element(types, #[trigger] elements[i]) is Ok,
    decreases elements.len(),
{
    if elements.len() > 0 {
        let before = elements.drop_last();
        lemma_success_needs_every_element(types, before);
        if reconcile(types, elements) is Ok {
            assert forall|i: int| 0 <= i < elements.len() implies reconcile_element(
                types,
                #[trigger] elements[i],
            ) is Ok by {
                if i < before.len() {
                    assert(before[i] == elements[i]);
                }
            }
        }
        if forall|i: int|
            0 <= i < elements.len() ==> reconcile_element(types, #[trigger] elements[i]) is Ok {
            assert forall|i: int| 0 <= i < before.len() implies reconcile_element(
                types,
                #[trigger] before[i],
            ) is Ok by {
                assert(before[i] == elements[i]);
            }
            assert(reconcile_element(types, elements[elements.len() - 1]) is Ok);
        }
    }
}

/// The locations that the elements of an interface span, added up.
pub open spec fn total_locations(elements: Seq<ShaderInterfaceElementView>) -> int
    decreases elements.len(),
{
    if elements.len() == 0 {
        0
    } else {
        total_locations(elements.drop_last()) + (elements.last().location_end
            - elements.last().location_start)
    }
}

/// A reconciled interface has one binding for each location that it spans.
pub proof fn lemma_one_binding_per_location(
    types: Seq<VertexTypeView>,
    elements: Seq<ShaderInterfaceElementView>,
)
    requires
        interface_valid(elements),
    ensures
        match reconcile(types, elements) {
            Ok(bindings) => bindings.len() == total_locations(elements),
            Err(_) => true,
        },
    decreases elements.len(),
{
    if elements.len() > 0 {
        let before = elements.drop_last();
        assert forall|i: int| 0 <= i < before.len() implies element_valid(
            #[trigger] before[i],
        ) by {
            assert(before[i] == elements[i]);
        }
        assert(element_valid(elements[elements.len() - 1]));
        lemma_one_binding_per_location(types, before);
    }
}

/// Whether every element of the interface is valid.
pub fn interface_is_valid(interface: &[ShaderInterfaceElement]) -> (ok: bool)
    ensures
        ok == interface_valid(interface_view(interface@)),
{
    let ghost elements = interface_view(interface@);
    let mut i: usize = 0;
    while i < interface.len()
        invariant
            i <= interface.len(),
            elements == interface_view(interface@),
            forall|j: int| 0 <= j < i ==> element_valid(#[trigger] elements[j]),
        decreases interface.len() - i,
    {
        let e = &interface[i];
        assert(elements[i as int] == e@);
        if e.name.is_none() || e.location_start > e.location_end {
            return false;
        }
        i += 1;
    }
    true
}

/// Finds the vertex type that supplies `name`: its index in the group and
/// the member found there, which lies inside that type's record if its
/// format is sized.
pub fn resolve_attribute(types: &[VertexType], name: &String) -> (r: Option<
    (u32, VertexMemberInfo),
>)
    requires
        types@.len() <= u32::MAX,
    ensures
        r == resolve(type_views(types@), name@),
        match r {
            Some((index, info)) => index < types@.len() && member_fits(
                info,
                types@[index as int]@.size,
            ),
            None => true,
        },
{
    let ghost views = type_views(types@);
    let mut i: usize = 0;
    while i < types.len()
        invariant
            i <= types.len(),
            types@.len() <= u32::MAX,
            views == type_views(types@),
            resolve(views.take(i as int), name@) is None,
        decreases types.len() - i,
    {
        proof {
            assert(views.take(i + 1).drop_last() =~= views.take(i as int));
            assert(views.take(i + 1).last() == types@[i as int]@);
        }
        match types[i].member(name) {
            Some(info) => {
                proof {
                    lemma_earlier_type_wins(views, name@, i + 1);
                }
                return Some((i as u32, info));
            },
            None => {},
        }
        i += 1;
    }
    assert(views.take(i as int) =~= views);
    None
}

/// Appends the bindings of one element that `info` matches.
fn push_element_attributes(
    attribs: &mut Vec<AttributeBinding>,
    element: &ShaderInterfaceElement,
    buffer_index: u32,
    info: VertexMemberInfo,
)
    requires
        element.location_start <= element.location_end,
        element.format.size_spec() is Some,
        info.offset + (element.location_end - element.location_start)
            * element.format.size_spec().unwrap() <= usize::MAX,
    ensures
        final(attribs)@ == old(attribs)@ + element_attributes(element@, buffer_index, info),
{
    let ghost before = attribs@;
    let ghost all = element_attributes(element@, buffer_index, info);
    let size = element.format.size().unwrap();
    let mut offset: usize = info.offset;
    let mut location: u32 = element.location_start;
    assert(all.take(0) =~= Seq::<AttributeBinding>::empty());
    assert(before + all.take(0) =~= before);
    while location < element.location_end
        invariant
            element.format.size_spec() is Some,
            size == element.format.size_spec().unwrap(),
            all == element_attributes(element@, buffer_index, info),
            element.location_start <= location <= element.location_end,
            offset == info.offset + (location - element.location_start) * size,
            info.offset + (element.location_end - element.location_start) * size <= usize::MAX,
            attribs@ == before + all.take(location - element.location_start),
        decreases element.location_end - location,
    {
        let ghost k = location - element.location_start;
        attribs.push(AttributeBinding { location, buffer_index, offset, format: element.format });
        proof {
            assert(all[k] == AttributeBinding {
                location,
                buffer_index,
                offset,
                format: element.format,
            });
            assert(all.take(k + 1) =~= all.take(k).push(all[k]));
            assert(before + all.take(k).push(all[k]) =~= (before + all.take(k)).push(all[k]));
            assert((k + 1) * size <= (element.location_end - element.location_start) * size)
                by (nonlinear_arith)
                requires
                    k + 1 <= element.location_end - element.location_start,
                    0 <= size,
            ;
            assert((k + 1) * size == k * size + size) by (nonlinear_arith);
        }
        offset = offset + size;
        location = location + 1;
    }
    assert(all.take(element.location_end - element.location_start) =~= all);
}

/// Lists one buffer binding per vertex type, in group order.
fn list_buffer_bindings(types: &[VertexType]) -> (buffers: Vec<BufferBinding>)
    requires
        types@.len() <= u32::MAX,
    ensures
        buffers@ == buffer_bindings(type_views(types@)),
{
    let ghost views = type_views(types@);
    let mut buffers: Vec<BufferBinding> = Vec::new();
    let mut i: usize = 0;
    while i < types.len()
        invariant
            i <= types.len(),
            types@.len() <= u32::MAX,
            views == type_views(types@),
            buffers@ =~= buffer_bindings(views).take(i as int),
        decreases types.len() - i,
    {
        buffers.push(
            BufferBinding { buffer_index: i as u32, stride: types[i].size(), rate: InputRate::Vertex },
        );
        i += 1;
    }
    assert(buffer_bindings(views).take(i as int) =~= buffer_bindings(views));
    buffers
}

/// Matches a shader's interface against a group of vertex types, one type
/// per vertex buffer.
///
/// On success the buffer bindings are one per vertex type and the
/// attribute bindings one per location of the interface, in declared
/// order. The call fails with the finding of the first element that no
/// vertex type has a member for, or whose member holds another number of
/// bytes than the element reads.
pub fn reconcile_interface(types: &[VertexType], interface: &[ShaderInterfaceElement]) -> (r:
    Result<(Vec<BufferBinding>, Vec<AttributeBinding>), IncompatibleVertexDefinitionError>)
    requires
        types@.len() <= u32::MAX,
        interface_reconcilable(type_views(types@), interface_view(interface@)),
    ensures
        match r {
            Ok((buffers, attribs)) => {
                &&& buffers@ == buffer_bindings(type_views(types@))
                &&& reconcile(type_views(types@), interface_view(interface@)) == Ok::<
                    Seq<AttributeBinding>,
                    IncompatibilityView,
                >(attribs@)
            },
            Err(e) => reconcile(type_views(types@), interface_view(interface@)) == Err::<
                Seq<AttributeBinding>,
                IncompatibilityView,
            >(e@),
        },
{
    let ghost views = type_views(types@);
    let ghost elements = interface_view(interface@);
    let mut attribs: Vec<AttributeBinding> = Vec::new();
    let mut i: usize = 0;
    while i < interface.len()
        invariant
            i <= interface.len(),
            types@.len() <= u32::MAX,
            views == type_views(types@),
            elements == interface_view(interface@),
            interface_reconcilable(views, elements),
            reconcile(views, elements.take(i as int)) == Ok::<
                Seq<AttributeBinding>,
                IncompatibilityView,
            >(attribs@),
        decreases interface.len() - i,
    {
        let e = &interface[i];
        proof {
            assert(elements[i as int] == e@);
            assert(element_valid(elements[i as int]));
            assert(elements.take(i + 1).drop_last() =~= elements.take(i as int));
            assert(elements.take(i + 1).last() == e@);
        }
        let name = e.name.as_ref().unwrap();
        let locations = e.location_end - e.location_start;
        let (buffer_index, info) = match resolve_attribute(types, name) {
            Some(found) => found,
            None => {
                proof {
                    lemma_first_failure_stands(views, elements, i + 1);
                }
                return Err(
                    IncompatibleVertexDefinitionError::MissingAttribute { attribute: name.clone() },
                );
            },
        };
        if !info.matches(e.format, locations) {
            proof {
                lemma_first_failure_stands(views, elements, i + 1);
            }
            return Err(
                IncompatibleVertexDefinitionError::FormatMismatch {
                    attribute: name.clone(),
                    shader: (e.format, locations as usize),
                    definition: (info.ty, info.array_size),
                },
            );
        }
        push_element_attributes(&mut attribs, e, buffer_index, info);
        i += 1;
    }
    assert(elements.take(i as int) =~= elements);
    let buffers = list_buffer_bindings(types);
    Ok((buffers, attribs))
}

/// A buffer of vertex records, as a draw sees it: which buffer it is and
/// how many records it holds.
#[derive(Clone, Copy, Debug, PartialEq, Eq, Structural)]
pub struct TypedBuffer {
    pub handle: BufferHandle,
    pub len: usize,
}

/// The smaller of two record counts.
pub open spec fn min_len(a: usize, b: usize) -> usize {
    if a <= b {
        a
    } else {
        b
    }
}

/// The handles of the buffers, in order.
pub open spec fn handles_of(source: Seq<TypedBuffer>) -> Seq<BufferHandle> {
    Seq::new(source.len(), |k: int| source[k].handle)
}

/// The number of records of the buffer that holds the fewest.
pub open spec fn shortest(source: Seq<TypedBuffer>) -> usize
    recommends
        source.len() > 0,
    decreases source.len(),
{
    if source.len() <= 1 {
        source[0].len
    } else {
        min_len(shortest(source.drop_last()), source.last().len)
    }
}

/// No buffer holds fewer records than the shortest, and one holds exactly
/// as many.
pub proof fn lemma_shortest_is_minimum(source: Seq<TypedBuffer>)
    requires
        source.len() > 0,
    ensures
        forall|i: int| 0 <= i < source.len() ==> shortest(source) <= (#[trigger] source[i]).len,
        exists|i: int| 0 <= i < source.len() && shortest(source) == (#[trigger] source[i]).len,
    decreases source.len(),
{
    if source.len() > 1 {
        let before = source.drop_last();
        lemma_shortest_is_minimum(before);
        assert forall|i: int|
            0 <= i < source.len() implies shortest(source) <= (#[trigger] source[i]).len by {
            if i < before.len() {
                assert(before[i] == source[i]);
            }
        }
        if shortest(source) == source.last().len {
            assert(shortest(source) == source[source.len() - 1].len);
        } else {
            let i = choose|i: int|
                0 <= i < before.len() && shortest(before) == (#[trigger] before[i]).len;
            assert(before[i] == source[i]);
        }
    } else {
        assert(shortest(source) == source[0].len);
    }
}

/// Sizes a draw from any number of buffers: the buffers in order, as many
/// vertices as the shortest buffer holds, and one instance. Without a
/// buffer there is nothing to size the draw from, and the result is `None`.
pub fn decode_buffers(source: &[TypedBuffer]) -> (r: Option<(Vec<BufferHandle>, usize, usize)>)
    ensures
        r is Some <==> source@.len() > 0,
        r is Some ==> {
            &&& r.unwrap().0@ == handles_of(source@)
            &&& r.unwrap().1 == shortest(source@)
            &&& r.unwrap().2 == 1
        },
{
    if source.len() == 0 {
        return None;
    }
    let mut handles: Vec<BufferHandle> = Vec::new();
    handles.push(source[0].handle);
    let mut vertices: usize = source[0].len;
    let mut i: usize = 1;
    while i < source.len()
        invariant
            1 <= i <= source.len(),
            handles@ =~= handles_of(source@).take(i as int),
            vertices == shortest(source@.take(i as int)),
        decreases source.len() - i,
    {
        proof {
            assert(source@.take(i + 1).drop_last() =~= source@.take(i as int));
            assert(source@.take(i + 1).last() == source@[i as int]);
        }
        handles.push(source[i].handle);
        if source[i].len < vertices {
            vertices = source[i].len;
        }
        i += 1;
    }
    assert(source@.take(i as int) =~= source@);
    assert(handles_of(source@).take(i as int) =~= handles_of(source@));
    Some((handles, vertices, 1))
}

/// The vertex layout of a pipeline fed by two vertex buffers, one per vertex
/// type: buffer 0 holds records of the first type, buffer 1 of the second.
#[derive(Debug, PartialEq, Eq)]
pub struct TwoBuffersDefinition {
    types: Vec<VertexType>,
}

impl View for TwoBuffersDefinition {
    type V = Seq<VertexTypeView>;

    closed spec fn view(&self) -> Seq<VertexTypeView> {
        type_views(self.types@)
    }
}

impl TwoBuffersDefinition {
    #[verifier::type_invariant]
    spec fn inv(self) -> bool {
        self.types@.len() == 2
    }

    /// A definition whose buffer 0 holds records of `first` and whose buffer
    /// 1 holds records of `second`.
    pub fn new(first: VertexType, second: VertexType) -> (definition: TwoBuffersDefinition)
        ensures
            definition@ == seq![first@, second@],
    {
        let mut types: Vec<VertexType> = Vec::new();
        types.push(first);
        types.push(second);
        assert(type_views(types@) =~= seq![first@, second@]);
        TwoBuffersDefinition { types }
    }

    /// The vertex type of buffer 0.
    pub fn first(&self) -> (vertex: &VertexType)
        ensures
            self@.len() == 2,
            vertex@ == self@[0],
    {
        proof {
            use_type_invariant(self);
        }
        &self.types[0]
    }

    /// The vertex type of buffer 1.
    pub fn second(&self) -> (vertex: &VertexType)
        ensures
            self@.len() == 2,
            vertex@ == self@[1],
    {
        proof {
            use_type_invariant(self);
        }
        &self.types[1]
    }

    /// Which buffer supplies `name`, and the member found in its vertex type.
    pub fn resolve(&self, name: &String) -> (r: Option<(u32, VertexMemberInfo)>)
        ensures
            r == resolve(self@, name@),
            match r {
                Some((index, info)) => index < 2 && member_fits(info, self@[index as int].size),
                None => true,
            },
    {
        proof {
            use_type_invariant(self);
        }
        resolve_attribute(self.types.as_slice(), name)
    }

    /// Matches the shader's interface against the two vertex types.
    ///
    /// On success the buffer bindings are one per vertex type and the
    /// attribute bindings one per location of the interface, in declared
    /// order. The call fails with the finding of the first element that no
    /// vertex type has a member for, or whose member holds another number
    /// of bytes than the element reads.
    pub fn definition(&self, interface: &[ShaderInterfaceElement]) -> (r: Result<
        (Vec<BufferBinding>, Vec<AttributeBinding>),
        IncompatibleVertexDefinitionError,
    >)
        requires
            interface_reconcilable(self@, interface_view(interface@)),
        ensures
            self@.len() == 2,
            match r {
                Ok((buffers, attribs)) => {
                    &&& buffers@ == buffer_bindings(self@)
                    &&& reconcile(self@, interface_view(interface@)) == Ok::<
                        Seq<AttributeBinding>,
                        IncompatibilityView,
                    >(attribs@)
                },
                Err(e) => reconcile(self@, interface_view(interface@)) == Err::<
                    Seq<AttributeBinding>,
                    IncompatibilityView,
                >(e@),
            },
    {
        proof {
            use_type_invariant(self);
        }
        reconcile_interface(self.types.as_slice(), interface)
    }

    /// Sizes a draw from the two buffers supplied: the buffers in order, as
    /// many vertices as the shorter buffer holds, and one instance.
    pub fn decode(&self, source: (TypedBuffer, TypedBuffer)) -> (r: (Vec<BufferHandle>, usize, usize))
        ensures
            r.0@ == seq![source.0.handle, source.1.handle],
            r.1 == min_len(source.0.len, source.1.len),
            r.2 == 1,
    {
        let vertices = if source.0.len <= source.1.len {
            source.0.len
        } else {
            source.1.len
        };
        let mut handles: Vec<BufferHandle> = Vec::new();
        handles.push(source.0.handle);
        handles.push(source.1.handle);
        assert(handles@ =~= seq![source.0.handle, source.1.handle]);
        (handles, vertices, 1)
    }

    /// Sizes a draw from a list of buffers. A definition of two buffers
    /// takes a list of exactly two, which it sizes as any list of buffers
    /// is sized; every other list gives `None`.
    pub fn decode_list(&self, source: Vec<TypedBuffer>) -> (r: Option<
        (Vec<BufferHandle>, usize, usize),
    >)
        ensures
            r is Some <==> source@.len() == 2,
            r is Some ==> {
                &&& r.unwrap().0@ == handles_of(source@)
                &&& r.unwrap().1 == shortest(source@)
                &&& r.unwrap().2 == 1
            },
    {
        if source.len() == 2 {
            decode_buffers(source.as_slice())
        } else {
            None
        }
    }
}

} // verus!
