use wintab_lite::window_message;
use wintab_lite::{ButtonChangeType, CSR, CTX, DVC, EXT, IFC, STA, TU, WT, WTI};

#[test]
fn wti_codes() {
    assert_eq!(WTI::INTERFACE.code(), 1);
    assert_eq!(WTI::STATUS.code(), 2);
    assert_eq!(WTI::DEFCONTEXT.code(), 3);
    assert_eq!(WTI::DEFSYSCTX.code(), 4);
    assert_eq!(WTI::DEVICES.code(), 100);
    assert_eq!(WTI::CURSORS.code(), 200);
    assert_eq!(WTI::EXTENSIONS.code(), 300);
    assert_eq!(WTI::DDCTXS.code(), 400);
    assert_eq!(WTI::DSCTXS.code(), 500);
}

#[test]
fn wti_from_code() {
    assert_eq!(WTI::from_code(4), Some(WTI::DEFSYSCTX));
    assert_eq!(WTI::from_code(300), Some(WTI::EXTENSIONS));
    assert_eq!(WTI::from_code(0), None);
    assert_eq!(WTI::from_code(5), None);
    assert_eq!(WTI::from_code(101), None);
    for code in 0..700u32 {
        match WTI::from_code(code) {
            Some(category) => assert_eq!(category.code(), code),
            None => {}
        }
    }
}

#[test]
fn wti_instances() {
    assert!(WTI::DEVICES.is_multiplexed());
    assert!(WTI::CURSORS.is_multiplexed());
    assert!(WTI::EXTENSIONS.is_multiplexed());
    assert!(WTI::DDCTXS.is_multiplexed());
    assert!(WTI::DSCTXS.is_multiplexed());
    assert!(!WTI::INTERFACE.is_multiplexed());
    assert!(!WTI::DEFSYSCTX.is_multiplexed());
    assert_eq!(WTI::DEVICES.instance(0), Some(100));
    assert_eq!(WTI::DEVICES.instance(1), Some(101));
    assert_eq!(WTI::CURSORS.instance(5), Some(205));
    assert_eq!(WTI::DSCTXS.instance(99), Some(599));
    assert_eq!(WTI::DSCTXS.instance(100), None);
    assert_eq!(WTI::DEVICES.instance(100), None);
    assert_eq!(WTI::INTERFACE.instance(0), Some(1));
    assert_eq!(WTI::INTERFACE.instance(1), None);
    assert_eq!(WTI::DEVICES.instance(u32::MAX), None);
}

#[test]
fn wti_of_instance_code() {
    assert_eq!(WTI::of_instance_code(1), Some((WTI::INTERFACE, 0)));
    assert_eq!(WTI::of_instance_code(100), Some((WTI::DEVICES, 0)));
    assert_eq!(WTI::of_instance_code(103), Some((WTI::DEVICES, 3)));
    assert_eq!(WTI::of_instance_code(250), Some((WTI::CURSORS, 50)));
    assert_eq!(WTI::of_instance_code(599), Some((WTI::DSCTXS, 99)));
    assert_eq!(WTI::of_instance_code(600), None);
    assert_eq!(WTI::of_instance_code(0), None);
    assert_eq!(WTI::of_instance_code(5), None);
    assert_eq!(WTI::of_instance_code(99), None);
    for code in 0..1000u32 {
        if let Some((category, index)) = WTI::of_instance_code(code) {
            assert_eq!(category.instance(index), Some(code));
        }
    }
}

#[test]
fn ifc_and_sta_codes() {
    assert_eq!(IFC::WINTABID.code(), 1);
    assert_eq!(IFC::SPECVERSION.code(), 2);
    assert_eq!(IFC::IMPLVERSION.code(), 3);
    assert_eq!(IFC::NDEVICES.code(), 4);
    assert_eq!(IFC::NCURSORS.code(), 5);
    assert_eq!(IFC::NCONTEXTS.code(), 6);
    assert_eq!(IFC::CTXOPTIONS.code(), 7);
    assert_eq!(IFC::CTXSAVESIZE.code(), 8);
    assert_eq!(IFC::NEXTENSIONS.code(), 9);
    assert_eq!(IFC::NMANAGERS.code(), 10);
    assert_eq!(IFC::from_code(11), None);
    assert_eq!(IFC::from_code(0), None);
    assert_eq!(IFC::from_code(7), Some(IFC::CTXOPTIONS));
    assert_eq!(STA::CONTEXTS.code(), 1);
    assert_eq!(STA::SYSCTXS.code(), 2);
    assert_eq!(STA::PKTRATE.code(), 3);
    assert_eq!(STA::PKTDATA.code(), 4);
    assert_eq!(STA::MANAGERS.code(), 5);
    assert_eq!(STA::SYSTEM.code(), 6);
    assert_eq!(STA::BUTTONUSE.code(), 7);
    assert_eq!(STA::SYSBTNUSE.code(), 8);
    assert_eq!(STA::from_code(9), None);
    assert_eq!(STA::from_code(8), Some(STA::SYSBTNUSE));
}

#[test]
fn ctx_codes() {
    let items = [
        CTX::NAME,
        CTX::OPTIONS,
        CTX::STATUS,
        CTX::LOCKS,
        CTX::MSGBASE,
        CTX::DEVICE,
        CTX::PKTRATE,
        CTX::PKTDATA,
        CTX::PKTMODE,
        CTX::MOVEMASK,
        CTX::BTNDNMASK,
        CTX::BTNUPMASK,
        CTX::INORGX,
        CTX::INORGY,
        CTX::INORGZ,
        CTX::INEXTX,
        CTX::INEXTY,
        CTX::INEXTZ,
        CTX::OUTORGX,
        CTX::OUTORGY,
        CTX::OUTORGZ,
        CTX::OUTEXTX,
        CTX::OUTEXTY,
        CTX::OUTEXTZ,
        CTX::SENSX,
        CTX::SENSY,
        CTX::SENSZ,
        CTX::SYSMODE,
        CTX::SYSORGX,
        CTX::SYSORGY,
        CTX::SYSEXTX,
        CTX::SYSEXTY,
        CTX::SYSSENSX,
        CTX::SYSSENSY,
    ];
    assert_eq!(items.len(), 34);
    for (position, item) in items.iter().enumerate() {
        assert_eq!(item.code(), position as u32 + 1);
        assert_eq!(CTX::from_code(position as u32 + 1), Some(*item));
    }
    assert_eq!(CTX::from_code(0), None);
    assert_eq!(CTX::from_code(35), None);
}

#[test]
fn dvc_codes() {
    let items = [
        DVC::NAME,
        DVC::HARDWARE,
        DVC::NCSRTYPES,
        DVC::FIRSTCSR,
        DVC::PKTRATE,
        DVC::PKTDATA,
        DVC::PKTMODE,
        DVC::CSRDATA,
        DVC::XMARGIN,
        DVC::YMARGIN,
        DVC::ZMARGIN,
        DVC::X,
        DVC::Y,
        DVC::Z,
        DVC::NPRESSURE,
        DVC::TPRESSURE,
        DVC::ORIENTATION,
        DVC::ROTATION,
        DVC::PNPID,
    ];
    assert_eq!(items.len(), 19);
    for (position, item) in items.iter().enumerate() {
        assert_eq!(item.code(), position as u32 + 1);
        assert_eq!(DVC::from_code(position as u32 + 1), Some(*item));
    }
    assert_eq!(DVC::from_code(20), None);
}

#[test]
fn csr_codes() {
    let items = [
        CSR::NAME,
        CSR::ACTIVE,
        CSR::PKTDATA,
        CSR::BUTTONS,
        CSR::BUTTONBITS,
        CSR::BTNNAMES,
        CSR::BUTTONMAP,
        CSR::SYSBTNMAP,
        CSR::NPBUTTON,
        CSR::NPBTNMARKS,
        CSR::NPRESPONSE,
        CSR::TPBUTTON,
        CSR::TPBTNMARKS,
        CSR::TPRESPONSE,
        CSR::PHYSID,
        CSR::MODE,
        CSR::MINPKTDATA,
        CSR::MINBUTTONS,
        CSR::CAPABILITIES,
        CSR::TYPE,
    ];
    assert_eq!(items.len(), 20);
    for (position, item) in items.iter().enumerate() {
        assert_eq!(item.code(), position as u32 + 1);
        assert_eq!(CSR::from_code(position as u32 + 1), Some(*item));
    }
    assert_eq!(CSR::from_code(21), None);
}

#[test]
fn ext_codes() {
    assert_eq!(EXT::NAME.code(), 1);
    assert_eq!(EXT::TAG.code(), 2);
    assert_eq!(EXT::MASK.code(), 3);
    assert_eq!(EXT::SIZE.code(), 4);
    assert_eq!(EXT::AXES.code(), 5);
    assert_eq!(EXT::DEFAULT.code(), 6);
    assert_eq!(EXT::DEFSYSCTX.code(), 7);
    assert_eq!(EXT::DEFCONTEXT.code(), 8);
    assert_eq!(EXT::CURSORS.code(), 9);
    assert_eq!(EXT::DEVICES.code(), 110);
    assert_eq!(EXT::from_code(110), Some(EXT::DEVICES));
    assert_eq!(EXT::from_code(10), None);
    assert_eq!(EXT::from_code(109), None);
}

#[test]
fn unit_codes() {
    assert_eq!(TU::NONE.code(), 0);
    assert_eq!(TU::INCHES.code(), 1);
    assert_eq!(TU::CENTIMETERS.code(), 2);
    assert_eq!(TU::CIRCLE.code(), 3);
    assert_eq!(TU::from_code(3), Some(TU::CIRCLE));
    assert_eq!(TU::from_code(4), None);
    assert_eq!(TU::default(), TU::NONE);
}

#[test]
fn button_change_type_codes() {
    assert_eq!(ButtonChangeType::NONE.code(), 0);
    assert_eq!(ButtonChangeType::UP.code(), 1);
    assert_eq!(ButtonChangeType::DOWN.code(), 2);
    assert_eq!(ButtonChangeType::from_code(2), Some(ButtonChangeType::DOWN));
    assert_eq!(ButtonChangeType::from_code(3), None);
    assert_eq!(ButtonChangeType::default(), ButtonChangeType::NONE);
}

#[test]
fn window_message_numbers() {
    assert_eq!(window_message::WT_DEFBASE, 32752);
    assert_eq!(WT::PACKET, 32752);
    assert_eq!(WT::CTXOPEN, 32753);
    assert_eq!(WT::CTXCLOSE, 32754);
    assert_eq!(WT::CTXUPDATE, 32755);
    assert_eq!(WT::CTXOVERLAP, 32756);
    assert_eq!(WT::PROXIMITY, 32757);
    assert_eq!(WT::INFOCHANGE, 32758);
    assert_eq!(WT::CSRCHANGE, 32759);
    assert_eq!(WT::PACKETEXT, 32760);
}
