use amdgpu_linux::sdma::{v2_4, v3_0, v4_0, v4_4, v5_0, v5_2};

#[test]
fn v2_4_packet_layouts_are_well_formed() {
    assert!(v2_4::CopyLinear::layout_ok());
    assert!(v2_4::CopyLinearBroadcast::layout_ok());
    assert!(v2_4::CopyTiled::layout_ok());
    assert!(v2_4::CopyLinearToTiledBroadcast::layout_ok());
    assert!(v2_4::Nop::layout_ok());
    assert!(v2_4::CopyStruct::layout_ok());
    assert!(v2_4::CopyLinearSubWindow::layout_ok());
    assert!(v2_4::CopyTiledSubWindow::layout_ok());
    assert!(v2_4::CopyTiledToTiled::layout_ok());
    assert!(v2_4::WriteUntiled::layout_ok());
    assert!(v2_4::WriteTiled::layout_ok());
    assert!(v2_4::IndirectBuffer::layout_ok());
    assert!(v2_4::Fence::layout_ok());
    assert!(v2_4::Trap::layout_ok());
    assert!(v2_4::Semaphore::layout_ok());
    assert!(v2_4::PollRegmem::layout_ok());
    assert!(v2_4::CondExe::layout_ok());
    assert!(v2_4::ConstFill::layout_ok());
    assert!(v2_4::GenPtepde::layout_ok());
    assert!(v2_4::TimestampSet::layout_ok());
    assert!(v2_4::TimestampGet::layout_ok());
    assert!(v2_4::TimestampGetGlobal::layout_ok());
    assert!(v2_4::SrbmWrite::layout_ok());
    assert!(v2_4::PreExe::layout_ok());
}

#[test]
fn v3_0_packet_layouts_are_well_formed() {
    assert!(v3_0::Atomic::layout_ok());
}

#[test]
fn v4_0_packet_layouts_are_well_formed() {
    assert!(v4_0::CopyLinear::layout_ok());
    assert!(v4_0::CopyDirtyPage::layout_ok());
    assert!(v4_0::CopyPhysicalLinear::layout_ok());
    assert!(v4_0::CopyBroadcastLinear::layout_ok());
    assert!(v4_0::CopyLinearSubwin::layout_ok());
    assert!(v4_0::CopyTiled::layout_ok());
    assert!(v4_0::CopyL2tBroadcast::layout_ok());
    assert!(v4_0::CopyT2t::layout_ok());
    assert!(v4_0::CopyTiledSubwin::layout_ok());
    assert!(v4_0::CopyStruct::layout_ok());
    assert!(v4_0::WriteUntiled::layout_ok());
    assert!(v4_0::WriteTiled::layout_ok());
    assert!(v4_0::PtepdeCopy::layout_ok());
    assert!(v4_0::PtepdeCopyBackwards::layout_ok());
    assert!(v4_0::PtepdeRmw::layout_ok());
    assert!(v4_0::SrbmWrite::layout_ok());
    assert!(v4_0::DataFillMulti::layout_ok());
    assert!(v4_0::PollRegWriteMem::layout_ok());
    assert!(v4_0::PollDbitWriteMem::layout_ok());
    assert!(v4_0::PollMemVerify::layout_ok());
    assert!(v4_0::Atomic::layout_ok());
    assert!(v4_0::DummyTrap::layout_ok());
}

#[test]
fn v4_4_packet_layouts_are_well_formed() {
    assert!(v4_4::CopyLinear::layout_ok());
}

#[test]
fn v5_0_packet_layouts_are_well_formed() {
    assert!(v5_0::CopyLinear::layout_ok());
    assert!(v5_0::CopyLinearBc::layout_ok());
    assert!(v5_0::CopyDirtyPage::layout_ok());
    assert!(v5_0::CopyPhysicalLinear::layout_ok());
    assert!(v5_0::CopyBroadcastLinear::layout_ok());
    assert!(v5_0::CopyLinearSubwin::layout_ok());
    assert!(v5_0::CopyLinearSubwinBc::layout_ok());
    assert!(v5_0::CopyTiled::layout_ok());
    assert!(v5_0::CopyTiledBc::layout_ok());
    assert!(v5_0::CopyL2tBroadcast::layout_ok());
    assert!(v5_0::CopyT2t::layout_ok());
    assert!(v5_0::CopyT2tBc::layout_ok());
    assert!(v5_0::CopyTiledSubwin::layout_ok());
    assert!(v5_0::CopyTiledSubwinBc::layout_ok());
    assert!(v5_0::CopyStruct::layout_ok());
    assert!(v5_0::WriteUntiled::layout_ok());
    // The count of a tiled write shares its bits with the length of its payload.
    assert!(!v5_0::WriteTiled::layout_ok());
    assert!(v5_0::WriteTiledBc::layout_ok());
    assert!(v5_0::PtepdeCopy::layout_ok());
    assert!(v5_0::PtepdeCopyBackwards::layout_ok());
    assert!(v5_0::PtepdeRmw::layout_ok());
    assert!(v5_0::WriteIncr::layout_ok());
    assert!(v5_0::Indirect::layout_ok());
    assert!(v5_0::Semaphore::layout_ok());
    assert!(v5_0::Fence::layout_ok());
    assert!(v5_0::SrbmWrite::layout_ok());
    assert!(v5_0::PreExe::layout_ok());
    assert!(v5_0::CondExe::layout_ok());
    assert!(v5_0::ConstantFill::layout_ok());
    assert!(v5_0::DataFillMulti::layout_ok());
    assert!(v5_0::PollRegmem::layout_ok());
    assert!(v5_0::VmInvalidation::layout_ok());
    assert!(v5_0::TimestampSet::layout_ok());
    assert!(v5_0::TimestampGet::layout_ok());
    assert!(v5_0::TimestampGetGlobal::layout_ok());
    assert!(v5_0::Trap::layout_ok());
    assert!(v5_0::DummyTrap::layout_ok());
    assert!(v5_0::GpuvmInv::layout_ok());
    assert!(v5_0::GcrReq::layout_ok());
    assert!(v5_0::Nop::layout_ok());
}

#[test]
fn v5_2_packet_layouts_are_well_formed() {
    assert!(v5_2::CopyLinear::layout_ok());
    assert!(v5_2::CopyLinearSubwin::layout_ok());
    assert!(v5_2::CopyLinearSubwinLarge::layout_ok());
    assert!(v5_2::CopyPhysicalLinear::layout_ok());
    assert!(v5_2::CopyStruct::layout_ok());
    assert!(v5_2::CopyT2t::layout_ok());
    assert!(v5_2::CopyTiled::layout_ok());
    assert!(v5_2::CopyTiledSubwin::layout_ok());
    assert!(v5_2::DataFillMulti::layout_ok());
    assert!(v5_2::Fence::layout_ok());
    assert!(v5_2::MemIncr::layout_ok());
    assert!(v5_2::PollDbitWriteMem::layout_ok());
    assert!(v5_2::PollMemVerify::layout_ok());
    assert!(v5_2::PollRegmem::layout_ok());
    assert!(v5_2::PollRegWriteMem::layout_ok());
    assert!(v5_2::TimestampGet::layout_ok());
    assert!(v5_2::TimestampGetGlobal::layout_ok());
    assert!(v5_2::WriteIncr::layout_ok());
    // The count of a tiled write shares its bits with the length of its payload.
    assert!(!v5_2::WriteTiled::layout_ok());
    assert!(v5_2::WriteUntiled::layout_ok());
}
