use feather_api_ffi::codec::{encode_register, encode_systems, push_u32_le, read_u32_le};
use feather_api_ffi::wire::{
    Owner, PluginBox, PluginRegister, PluginSlice, PluginStatic, PluginString, PluginSystem,
    SystemStage,
};

#[test]
fn stage_codes_are_fixed() {
    assert_eq!(SystemStage::Pre.code(), 0);
    assert_eq!(SystemStage::Tick.code(), 1);
    assert_eq!(SystemStage::SendPackets.code(), 2);
    assert_eq!(SystemStage::CleanUp.code(), 3);
}

#[test]
fn stage_code_round_trips() {
    for stage in [
        SystemStage::Pre,
        SystemStage::Tick,
        SystemStage::SendPackets,
        SystemStage::CleanUp,
    ] {
        assert_eq!(SystemStage::of_code(stage.code()), Some(stage));
    }
}

#[test]
fn invalid_stage_byte_is_rejected() {
    assert_eq!(SystemStage::of_code(4), None);
    assert_eq!(SystemStage::of_code(255), None);
}

#[test]
fn from_borrow_keeps_fields_and_is_not_owned() {
    let r = PluginString::from_borrow(640, 17);
    assert_eq!(r.value.ptr, 640);
    assert_eq!(r.value.len, 17);
}

#[test]
fn static_values_carry_their_fields() {
    let s = PluginStatic { value: PluginString { ptr: 96, len: 4 } };
    assert_eq!(s.value.ptr, 96);
    assert_eq!(s.value.len, 4);
}

#[test]
fn u32_wire_form_is_little_endian() {
    let mut out: Vec<u8> = Vec::new();
    push_u32_le(&mut out, 0xDEADBEEF);
    assert_eq!(out, vec![0xEF, 0xBE, 0xAD, 0xDE]);
    assert_eq!(read_u32_le(&out, 0), Some(0xDEADBEEF));
}

#[test]
fn u32_read_rejects_short_input() {
    let out: Vec<u8> = vec![1, 2, 3];
    assert_eq!(read_u32_le(&out, 0), None);
    let out4: Vec<u8> = vec![1, 2, 3, 4];
    assert_eq!(read_u32_le(&out4, 1), None);
}

#[test]
fn register_header_encodes_field_by_field() {
    let reg = PluginRegister {
        name: PluginBox {
            owner: Owner::Guest,
            value: PluginString { ptr: 0, len: 14 },
        },
        version: PluginBox {
            owner: Owner::Guest,
            value: PluginString { ptr: 14, len: 5 },
        },
        systems: PluginBox {
            owner: Owner::Guest,
            value: PluginSlice { len: 1, elements: 32 },
        },
    };
    let bytes = encode_register(&reg);
    assert_eq!(
        bytes,
        vec![
            0, 0, 0, 0, 14, 0, 0, 0, // name ptr, name len
            14, 0, 0, 0, 5, 0, 0, 0, // version ptr, version len
            1, 0, 0, 0, 32, 0, 0, 0, // systems count, elements ptr
        ]
    );
}

#[test]
fn system_element_encodes_stage_then_name() {
    let systems = vec![PluginSystem {
        stage: SystemStage::Tick,
        name: PluginBox {
            owner: Owner::Guest,
            value: PluginString { ptr: 19, len: 11 },
        },
    }];
    let bytes = encode_systems(&systems);
    assert_eq!(bytes, vec![1, 0, 0, 0, 19, 0, 0, 0, 11, 0, 0, 0]);
}

#[test]
fn empty_systems_encode_to_nothing() {
    let systems: Vec<PluginSystem> = Vec::new();
    assert_eq!(encode_systems(&systems), Vec::<u8>::new());
}
