use binding_plan::format::Format;
use binding_plan::resource::BufferHandle;
use binding_plan::vertex::{
    decode_buffers, interface_is_valid, reconcile_interface, resolve_attribute, AttributeBinding, BufferBinding,
    IncompatibleVertexDefinitionError, InputRate, ShaderInterfaceElement, TwoBuffersDefinition,
    TypedBuffer, VertexMember, VertexMemberInfo, VertexType,
};

fn member(name: &str, offset: usize, ty: Format, array_size: usize) -> VertexMember {
    VertexMember { name: name.to_string(), info: VertexMemberInfo { offset, ty, array_size } }
}

fn element(name: &str, start: u32, end: u32, format: Format) -> ShaderInterfaceElement {
    ShaderInterfaceElement {
        name: Some(name.to_string()),
        location_start: start,
        location_end: end,
        format,
    }
}

fn position_and_normal() -> VertexType {
    VertexType::new(
        24,
        vec![
            member("position", 0, Format::R32G32B32Sfloat, 1),
            member("normal", 12, Format::R32G32B32Sfloat, 1),
        ],
    )
    .unwrap()
}

fn instance_data() -> VertexType {
    VertexType::new(
        80,
        vec![
            member("transform", 0, Format::R32G32B32A32Sfloat, 4),
            member("weights", 64, Format::R32Sfloat, 3),
            member("position", 76, Format::R32Sfloat, 1),
        ],
    )
    .unwrap()
}

fn definition() -> TwoBuffersDefinition {
    TwoBuffersDefinition::new(position_and_normal(), instance_data())
}

#[test]
fn position_binds_to_first_buffer() {
    let (buffers, attribs) = definition()
        .definition(&[element("position", 0, 1, Format::R32G32B32Sfloat)])
        .unwrap();
    assert_eq!(
        attribs,
        vec![AttributeBinding {
            location: 0,
            buffer_index: 0,
            offset: 0,
            format: Format::R32G32B32Sfloat
        }]
    );
    assert_eq!(
        buffers,
        vec![
            BufferBinding { buffer_index: 0, stride: 24, rate: InputRate::Vertex },
            BufferBinding { buffer_index: 1, stride: 80, rate: InputRate::Vertex },
        ]
    );
}

#[test]
fn absent_attribute_is_reported_by_name() {
    let r = definition().definition(&[element("color", 0, 1, Format::R32G32B32A32Sfloat)]);
    assert_eq!(
        r,
        Err(IncompatibleVertexDefinitionError::MissingAttribute { attribute: "color".to_string() })
    );
}

#[test]
fn array_of_three_does_not_feed_one_location() {
    let r = definition().definition(&[element("weights", 0, 1, Format::R32Sfloat)]);
    assert_eq!(
        r,
        Err(IncompatibleVertexDefinitionError::FormatMismatch {
            attribute: "weights".to_string(),
            shader: (Format::R32Sfloat, 1),
            definition: (Format::R32Sfloat, 3),
        })
    );
}

#[test]
fn format_of_another_size_is_a_mismatch() {
    let r = definition().definition(&[element("normal", 1, 2, Format::R32G32B32A32Sfloat)]);
    assert_eq!(
        r,
        Err(IncompatibleVertexDefinitionError::FormatMismatch {
            attribute: "normal".to_string(),
            shader: (Format::R32G32B32A32Sfloat, 1),
            definition: (Format::R32G32B32Sfloat, 1),
        })
    );
}

#[test]
fn element_of_two_locations_gives_two_bindings() {
    let vertex = VertexType::new(32, vec![member("basis", 0, Format::R32G32B32A32Sfloat, 2)]);
    let other = VertexType::new(0, Vec::new());
    let definition = TwoBuffersDefinition::new(vertex.unwrap(), other.unwrap());
    let (_, attribs) = definition
        .definition(&[element("basis", 2, 4, Format::R32G32B32A32Sfloat)])
        .unwrap();
    assert_eq!(
        attribs,
        vec![
            AttributeBinding {
                location: 2,
                buffer_index: 0,
                offset: 0,
                format: Format::R32G32B32A32Sfloat
            },
            AttributeBinding {
                location: 3,
                buffer_index: 0,
                offset: 16,
                format: Format::R32G32B32A32Sfloat
            },
        ]
    );
}

#[test]
fn matrix_in_second_buffer_spans_four_locations() {
    let (_, attribs) = definition()
        .definition(&[
            element("normal", 0, 1, Format::R32G32B32Sfloat),
            element("transform", 1, 5, Format::R32G32B32A32Sfloat),
            element("weights", 5, 8, Format::R32Sfloat),
        ])
        .unwrap();
    let got: Vec<(u32, u32, usize)> =
        attribs.iter().map(|a| (a.location, a.buffer_index, a.offset)).collect();
    assert_eq!(
        got,
        vec![
            (0, 0, 12),
            (1, 1, 0),
            (2, 1, 16),
            (3, 1, 32),
            (4, 1, 48),
            (5, 1, 64),
            (6, 1, 68),
            (7, 1, 72),
        ]
    );
    assert_eq!(attribs[0].format, Format::R32G32B32Sfloat);
    assert_eq!(attribs[4].format, Format::R32G32B32A32Sfloat);
    assert_eq!(attribs[7].format, Format::R32Sfloat);
}

#[test]
fn first_vertex_type_wins_a_shared_name() {
    let definition = definition();
    assert_eq!(
        definition.resolve(&"position".to_string()),
        Some((0, VertexMemberInfo { offset: 0, ty: Format::R32G32B32Sfloat, array_size: 1 }))
    );
    let r = definition.definition(&[element("position", 0, 1, Format::R32Sfloat)]);
    assert_eq!(
        r,
        Err(IncompatibleVertexDefinitionError::FormatMismatch {
            attribute: "position".to_string(),
            shader: (Format::R32Sfloat, 1),
            definition: (Format::R32G32B32Sfloat, 1),
        })
    );
    let swapped = TwoBuffersDefinition::new(instance_data(), position_and_normal());
    let (_, attribs) =
        swapped.definition(&[element("position", 0, 1, Format::R32Sfloat)]).unwrap();
    assert_eq!(
        attribs,
        vec![AttributeBinding {
            location: 0,
            buffer_index: 0,
            offset: 76,
            format: Format::R32Sfloat
        }]
    );
}

#[test]
fn resolve_tries_second_type_after_first() {
    let definition = definition();
    assert_eq!(
        definition.resolve(&"weights".to_string()),
        Some((1, VertexMemberInfo { offset: 64, ty: Format::R32Sfloat, array_size: 3 }))
    );
    assert_eq!(definition.resolve(&"color".to_string()), None);
    assert_eq!(definition.resolve(&"".to_string()), None);
}

#[test]
fn first_entry_wins_within_one_table() {
    let vertex = VertexType::new(
        16,
        vec![member("uv", 8, Format::R32G32Sfloat, 1), member("uv", 0, Format::R32G32Sfloat, 1)],
    )
    .unwrap();
    assert_eq!(
        vertex.member(&"uv".to_string()),
        Some(VertexMemberInfo { offset: 8, ty: Format::R32G32Sfloat, array_size: 1 })
    );
    assert_eq!(vertex.member(&"u".to_string()), None);
    assert_eq!(vertex.size(), 16);
}

#[test]
fn first_failing_element_is_the_one_reported() {
    let r = definition().definition(&[
        element("position", 0, 1, Format::R32G32B32Sfloat),
        element("weights", 1, 2, Format::R32Sfloat),
        element("color", 2, 3, Format::R32Sfloat),
    ]);
    assert_eq!(
        r,
        Err(IncompatibleVertexDefinitionError::FormatMismatch {
            attribute: "weights".to_string(),
            shader: (Format::R32Sfloat, 1),
            definition: (Format::R32Sfloat, 3),
        })
    );
    let r = definition().definition(&[
        element("color", 0, 1, Format::R32Sfloat),
        element("weights", 1, 2, Format::R32Sfloat),
    ]);
    assert_eq!(
        r,
        Err(IncompatibleVertexDefinitionError::MissingAttribute { attribute: "color".to_string() })
    );
}

#[test]
fn empty_interface_binds_buffers_only() {
    let (buffers, attribs) = definition().definition(&[]).unwrap();
    assert!(attribs.is_empty());
    assert_eq!(buffers.len(), 2);
    assert_eq!(buffers[0].stride, 24);
    assert_eq!(buffers[1].stride, 80);
}

#[test]
fn element_without_locations_gives_no_binding() {
    let vertex = VertexType::new(4, vec![member("pad", 4, Format::R8Uint, 0)]).unwrap();
    let definition =
        TwoBuffersDefinition::new(vertex, VertexType::new(0, Vec::new()).unwrap());
    let (_, attribs) = definition.definition(&[element("pad", 3, 3, Format::R8Uint)]).unwrap();
    assert!(attribs.is_empty());
}

#[test]
fn member_must_lie_inside_the_record() {
    assert!(VertexType::new(12, vec![member("p", 0, Format::R32G32B32Sfloat, 1)]).is_some());
    assert!(VertexType::new(11, vec![member("p", 0, Format::R32G32B32Sfloat, 1)]).is_none());
    assert!(VertexType::new(12, vec![member("p", 1, Format::R32G32B32Sfloat, 1)]).is_none());
    assert!(VertexType::new(16, vec![member("p", 0, Format::R32Sfloat, 5)]).is_none());
    assert!(VertexType::new(
        usize::MAX,
        vec![member("p", usize::MAX, Format::R64G64B64A64Sfloat, usize::MAX)]
    )
    .is_none());
    assert!(VertexType::new(0, vec![member("d", 9, Format::D24UnormS8Uint, 9)]).is_some());
    assert!(VertexType::new(
        8,
        vec![member("a", 0, Format::R32Sfloat, 2), member("b", 8, Format::R8Uint, 1)]
    )
    .is_none());
}

#[test]
fn member_matches_where_byte_counts_agree() {
    let info = VertexMemberInfo { offset: 0, ty: Format::R32G32Sfloat, array_size: 2 };
    assert!(info.matches(Format::R32G32Sfloat, 2));
    assert!(info.matches(Format::R32G32Uint, 2));
    assert!(info.matches(Format::R64Sfloat, 2));
    assert!(info.matches(Format::R32G32B32A32Sfloat, 1));
    assert!(info.matches(Format::R32Sfloat, 4));
    assert!(info.matches(Format::R8Uint, 16));
    assert!(!info.matches(Format::R32G32Sfloat, 1));
    assert!(!info.matches(Format::R32G32Sfloat, 3));
    assert!(!info.matches(Format::R32G32B32Sfloat, 1));
    assert!(!info.matches(Format::R32G32B32Sfloat, 2));
    assert!(!info.matches(Format::R64G64B64A64Sfloat, 1));
    assert!(!info.matches(Format::R32G32Sfloat, 0));
}

#[test]
fn member_without_values_matches_no_locations_only() {
    let info = VertexMemberInfo { offset: 0, ty: Format::R32Sfloat, array_size: 0 };
    assert!(info.matches(Format::R32Sfloat, 0));
    assert!(info.matches(Format::R64G64Sfloat, 0));
    assert!(!info.matches(Format::R32Sfloat, 1));
    assert!(!info.matches(Format::D24UnormS8Uint, 0));
}

#[test]
fn format_without_size_matches_nothing() {
    let sized = VertexMemberInfo { offset: 0, ty: Format::R32Sfloat, array_size: 1 };
    let unsized_member = VertexMemberInfo { offset: 0, ty: Format::D24UnormS8Uint, array_size: 1 };
    assert!(!sized.matches(Format::D24UnormS8Uint, 1));
    assert!(!sized.matches(Format::Bc7UnormBlock, 1));
    assert!(!unsized_member.matches(Format::R32Sfloat, 1));
    assert!(!unsized_member.matches(Format::D24UnormS8Uint, 1));
}

#[test]
fn member_match_counts_bytes_past_four_gigabytes() {
    let info = VertexMemberInfo { offset: 0, ty: Format::R8Uint, array_size: 4_294_967_295 };
    assert!(info.matches(Format::R8Uint, u32::MAX));
    assert!(!info.matches(Format::R8G8Uint, u32::MAX));
    let wide = VertexMemberInfo { offset: 0, ty: Format::R64G64B64A64Sfloat, array_size: usize::MAX };
    assert!(!wide.matches(Format::R8Uint, u32::MAX));
}

#[test]
fn four_floats_feed_two_locations_of_two_floats() {
    let first = VertexType::new(12, vec![member("position", 0, Format::R32G32B32Sfloat, 1)]);
    let second = VertexType::new(20, vec![member("m", 4, Format::R32Sfloat, 4)]);
    let definition = TwoBuffersDefinition::new(first.unwrap(), second.unwrap());
    let (buffers, attribs) =
        definition.definition(&[element("m", 2, 4, Format::R32G32Sfloat)]).unwrap();
    assert_eq!(
        attribs,
        vec![
            AttributeBinding { location: 2, buffer_index: 1, offset: 4, format: Format::R32G32Sfloat },
            AttributeBinding {
                location: 3,
                buffer_index: 1,
                offset: 12,
                format: Format::R32G32Sfloat
            },
        ]
    );
    assert_eq!(buffers.len(), 2);
    assert_eq!(buffers[1].stride, 20);
}

#[test]
fn element_of_unsized_format_is_a_mismatch() {
    let vertex = VertexType::new(4, vec![member("depth", 0, Format::D24UnormS8Uint, 1)]);
    let definition =
        TwoBuffersDefinition::new(vertex.unwrap(), VertexType::new(0, Vec::new()).unwrap());
    assert!(interface_is_valid(&[element("depth", 0, 1, Format::D24UnormS8Uint)]));
    assert_eq!(
        definition.definition(&[element("depth", 0, 1, Format::D24UnormS8Uint)]),
        Err(IncompatibleVertexDefinitionError::FormatMismatch {
            attribute: "depth".to_string(),
            shader: (Format::D24UnormS8Uint, 1),
            definition: (Format::D24UnormS8Uint, 1),
        })
    );
    assert_eq!(
        definition.definition(&[element("stencil", 0, 1, Format::D24UnormS8Uint)]),
        Err(IncompatibleVertexDefinitionError::MissingAttribute {
            attribute: "stencil".to_string()
        })
    );
}

#[test]
fn format_sizes_are_exact() {
    assert_eq!(Format::R8Unorm.size(), Some(1));
    assert_eq!(Format::R8G8Sint.size(), Some(2));
    assert_eq!(Format::R8G8B8Uint.size(), Some(3));
    assert_eq!(Format::R8G8B8A8Unorm.size(), Some(4));
    assert_eq!(Format::R16Sfloat.size(), Some(2));
    assert_eq!(Format::R16G16Sfloat.size(), Some(4));
    assert_eq!(Format::R16G16B16Sint.size(), Some(6));
    assert_eq!(Format::R16G16B16A16Unorm.size(), Some(8));
    assert_eq!(Format::R32Sfloat.size(), Some(4));
    assert_eq!(Format::R32G32Sfloat.size(), Some(8));
    assert_eq!(Format::R32G32B32Sfloat.size(), Some(12));
    assert_eq!(Format::R32G32B32A32Sfloat.size(), Some(16));
    assert_eq!(Format::R64Sfloat.size(), Some(8));
    assert_eq!(Format::R64G64Uint.size(), Some(16));
    assert_eq!(Format::R64G64B64Sint.size(), Some(24));
    assert_eq!(Format::R64G64B64A64Sfloat.size(), Some(32));
    assert_eq!(Format::D16Unorm.size(), Some(2));
    assert_eq!(Format::D32Sfloat.size(), Some(4));
    assert_eq!(Format::S8Uint.size(), Some(1));
    assert_eq!(Format::D16UnormS8Uint.size(), None);
    assert_eq!(Format::D24UnormS8Uint.size(), None);
    assert_eq!(Format::D32SfloatS8Uint.size(), None);
    assert_eq!(Format::Bc1RgbUnormBlock.size(), None);
    assert_eq!(Format::Bc7SrgbBlock.size(), None);
}

#[test]
fn interface_validity_is_checked_per_element() {
    assert!(interface_is_valid(&[]));
    assert!(interface_is_valid(&[
        element("a", 0, 1, Format::R32Sfloat),
        element("b", 4, 4, Format::R8Uint)
    ]));
    assert!(!interface_is_valid(&[
        element("a", 0, 1, Format::R32Sfloat),
        element("b", 2, 1, Format::R32Sfloat)
    ]));
    assert!(interface_is_valid(&[element("a", 0, 1, Format::Bc7UnormBlock)]));
    assert!(!interface_is_valid(&[ShaderInterfaceElement {
        name: None,
        location_start: 0,
        location_end: 1,
        format: Format::R32Sfloat
    }]));
}

#[test]
fn decode_takes_the_shorter_buffer() {
    let source = (
        TypedBuffer { handle: BufferHandle { id: 3 }, len: 10 },
        TypedBuffer { handle: BufferHandle { id: 4 }, len: 7 },
    );
    let (handles, vertices, instances) = definition().decode(source);
    assert_eq!(handles, vec![BufferHandle { id: 3 }, BufferHandle { id: 4 }]);
    assert_eq!(vertices, 7);
    assert_eq!(instances, 1);
}

#[test]
fn decode_of_equal_and_empty_buffers() {
    let a = TypedBuffer { handle: BufferHandle { id: 1 }, len: 5 };
    let b = TypedBuffer { handle: BufferHandle { id: 2 }, len: 5 };
    let c = TypedBuffer { handle: BufferHandle { id: 9 }, len: 0 };
    assert_eq!(definition().decode((a, b)).1, 5);
    assert_eq!(definition().decode((c, b)), (vec![c.handle, b.handle], 0, 1));
    assert_eq!(definition().decode((b, c)), (vec![b.handle, c.handle], 0, 1));
}

#[test]
fn decode_list_takes_exactly_two_buffers() {
    let a = TypedBuffer { handle: BufferHandle { id: 1 }, len: 10 };
    let b = TypedBuffer { handle: BufferHandle { id: 2 }, len: 7 };
    assert_eq!(definition().decode_list(vec![a, b]), Some((vec![a.handle, b.handle], 7, 1)));
    assert_eq!(definition().decode_list(vec![b, a]), Some((vec![b.handle, a.handle], 7, 1)));
    assert_eq!(definition().decode_list(Vec::new()), None);
    assert_eq!(definition().decode_list(vec![a]), None);
    assert_eq!(definition().decode_list(vec![a, b, a]), None);
}

#[test]
fn new_keeps_both_vertex_types() {
    let definition = TwoBuffersDefinition::new(position_and_normal(), instance_data());
    assert_eq!(definition.first(), &position_and_normal());
    assert_eq!(definition.second(), &instance_data());
    assert_eq!(definition.first().size(), 24);
    assert_eq!(definition.second().size(), 80);
}

#[test]
fn group_of_three_types_is_reconciled_in_order() {
    let types = vec![
        VertexType::new(8, vec![member("uv", 0, Format::R32G32Sfloat, 1)]).unwrap(),
        position_and_normal(),
        instance_data(),
    ];
    let (buffers, attribs) = reconcile_interface(
        &types,
        &[
            element("weights", 0, 3, Format::R32Sfloat),
            element("uv", 3, 4, Format::R32G32Sfloat),
            element("position", 4, 5, Format::R32G32B32Sfloat),
        ],
    )
    .unwrap();
    let strides: Vec<(u32, usize, InputRate)> =
        buffers.iter().map(|b| (b.buffer_index, b.stride, b.rate)).collect();
    assert_eq!(
        strides,
        vec![(0, 8, InputRate::Vertex), (1, 24, InputRate::Vertex), (2, 80, InputRate::Vertex)]
    );
    let got: Vec<(u32, u32, usize)> =
        attribs.iter().map(|a| (a.location, a.buffer_index, a.offset)).collect();
    assert_eq!(got, vec![(0, 2, 64), (1, 2, 68), (2, 2, 72), (3, 0, 0), (4, 1, 0)]);
}

#[test]
fn group_without_types_supplies_nothing() {
    let types: Vec<VertexType> = Vec::new();
    assert_eq!(resolve_attribute(&types, &"position".to_string()), None);
    assert_eq!(reconcile_interface(&types, &[]), Ok((Vec::new(), Vec::new())));
    assert_eq!(
        reconcile_interface(&types, &[element("position", 0, 1, Format::R32Sfloat)]),
        Err(IncompatibleVertexDefinitionError::MissingAttribute {
            attribute: "position".to_string()
        })
    );
}

#[test]
fn resolve_attribute_gives_index_of_first_supplier() {
    let types = vec![instance_data(), position_and_normal(), instance_data()];
    assert_eq!(
        resolve_attribute(&types, &"normal".to_string()),
        Some((1, VertexMemberInfo { offset: 12, ty: Format::R32G32B32Sfloat, array_size: 1 }))
    );
    assert_eq!(
        resolve_attribute(&types, &"position".to_string()),
        Some((0, VertexMemberInfo { offset: 76, ty: Format::R32Sfloat, array_size: 1 }))
    );
    assert_eq!(resolve_attribute(&types, &"tangent".to_string()), None);
}

#[test]
fn decode_buffers_takes_the_shortest_of_any_number() {
    let buffer = |id: u64, len: usize| TypedBuffer { handle: BufferHandle { id }, len };
    assert_eq!(decode_buffers(&[]), None);
    assert_eq!(decode_buffers(&[buffer(1, 9)]), Some((vec![BufferHandle { id: 1 }], 9, 1)));
    assert_eq!(
        decode_buffers(&[buffer(1, 10), buffer(2, 7)]),
        Some((vec![BufferHandle { id: 1 }, BufferHandle { id: 2 }], 7, 1))
    );
    let (handles, vertices, instances) =
        decode_buffers(&[buffer(4, 12), buffer(5, 3), buffer(6, 8), buffer(7, 3)]).unwrap();
    let ids: Vec<u64> = handles.iter().map(|h| h.id).collect();
    assert_eq!(ids, vec![4, 5, 6, 7]);
    assert_eq!(vertices, 3);
    assert_eq!(instances, 1);
    assert_eq!(decode_buffers(&[buffer(1, 5), buffer(2, 0), buffer(3, 5)]).unwrap().1, 0);
}
