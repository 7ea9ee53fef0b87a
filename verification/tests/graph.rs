use render::graph::PassNodeBuilder;
use render::resource::render_pass::{AttachmentLoadOp, AttachmentStoreOp};
use render::resource::swap_buffer::SwapFrames;

#[test]
fn pass_node_builder_collects_attachments() {
    let mut builder: PassNodeBuilder<u32, &str, &str> = PassNodeBuilder::new("main_pass".into());
    builder
        .add_output(0, AttachmentLoadOp::Clear, AttachmentStoreOp::Store)
        .add_output(1, AttachmentLoadOp::Load, AttachmentStoreOp::Store)
        .add_input(2, AttachmentLoadOp::Load, AttachmentStoreOp::DontCare)
        .set_depth(3, AttachmentLoadOp::Clear, AttachmentStoreOp::DontCare)
        .init("init")
        .callback("run");
    let node = builder.build();
    assert_eq!(node.name, "main_pass");
    assert_eq!(node.output_attachments.len(), 2);
    assert_eq!(node.output_attachments[1].index, 1);
    assert_eq!(node.output_attachments[0].load, AttachmentLoadOp::Clear);
    assert_eq!(node.input_attachments.len(), 1);
    assert_eq!(node.depth_attachment.as_ref().map(|d| d.index), Some(3));
    assert_eq!((node.init, node.runner), ("init", "run"));
    // the builder is emptied
    let again = builder.init("i").callback("r").build();
    assert!(again.output_attachments.is_empty());
    assert!(again.depth_attachment.is_none());
}

#[test]
fn swap_frames_track_pending_writes() {
    let mut frames = SwapFrames::new(vec!["a", "b", "c"], 1u32);
    assert_eq!(frames.len(), 3);
    assert!(frames.frame(0).is_none());
    frames.write(7);
    assert_eq!(frames.frame(1), Some((&"b", &7)));
    assert_eq!(frames.frame(2), Some((&"c", &7)));
    assert_eq!(*frames.buffer(0), "a");
    *frames.buffer_mut(0) = "z";
    assert_eq!(frames.frame(0), Some((&"z", &7)));
}

#[test]
fn pass_node_keeps_an_owned_name() {
    let mut builder: PassNodeBuilder<u32, u8, u8> = PassNodeBuilder::new(String::from("shadow").into());
    builder.init(1).callback(2);
    let node = builder.build();
    assert_eq!(node.name, "shadow");
    assert_eq!(builder.init(3).callback(4).build().name, "shadow");
}
