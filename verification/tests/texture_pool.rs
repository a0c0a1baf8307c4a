use egui_directx10::image::Color32;
use egui_directx10::image::ColorImage;
use egui_directx10::image::ImageDelta;
use egui_directx10::image::TextureId;
use egui_directx10::image::TexturesDelta;
use egui_directx10::texture::SetKind;
use egui_directx10::texture::Texture;
use egui_directx10::texture::TexturePool;
use egui_directx10::texture::UpdateStep;

type Pool = TexturePool<u32, String>;

fn solid(width: usize, height: usize, n: u8) -> ColorImage {
    let c = Color32 { r: n, g: n, b: n, a: 255 };
    ColorImage::new(width, height, vec![c; width * height]).unwrap()
}

fn full(tid: TextureId, width: usize, height: usize, n: u8) -> (TextureId, ImageDelta) {
    (tid, ImageDelta { image: solid(width, height, n), pos: None })
}

fn part(tid: TextureId, width: usize, height: usize, n: u8, pos: (usize, usize)) -> (TextureId, ImageDelta) {
    (tid, ImageDelta { image: solid(width, height, n), pos: Some(pos) })
}

/// Runs a batch to its end as a backend would, with a counter for GPU
/// handles, and returns the steps it took.
fn run(pool: &mut Pool, delta: TexturesDelta, next_handle: &mut u32) -> Vec<UpdateStep> {
    let mut pass = pool.begin_update(delta);
    let mut steps = Vec::new();
    loop {
        let step = pool.update(&mut pass);
        let done = step == UpdateStep::Done;
        if let UpdateStep::CreateTexture(_) = &step {
            let handle = *next_handle;
            *next_handle += 1;
            assert!(pool.install(&mut pass, handle, format!("view-{handle}")));
        }
        steps.push(step);
        if done {
            assert!(pass.is_done());
            return steps;
        }
    }
}

#[test]
fn new_pool_resolves_nothing() {
    let pool = Pool::new();
    assert_eq!(pool.get_srv(TextureId::Managed(0)), None);
    assert_eq!(pool.get_srv(TextureId::User(0)), None);
}

#[test]
fn registered_ids_are_distinct_user_ids() {
    let mut pool = Pool::new();
    let a = pool.register_user_texture("a".to_string());
    let b = pool.register_user_texture("b".to_string());
    assert_eq!(a, TextureId::User(0));
    assert_eq!(b, TextureId::User(1));
    assert_ne!(a, b);
    assert_eq!(pool.get_srv(a), Some(&"a".to_string()));
    assert_eq!(pool.get_srv(b), Some(&"b".to_string()));
}

#[test]
fn registered_id_is_not_reused_after_unregister() {
    let mut pool = Pool::new();
    let a = pool.register_user_texture("a".to_string());
    assert!(pool.unregister_user_texture(a));
    let b = pool.register_user_texture("b".to_string());
    assert_ne!(a, b);
    assert_eq!(pool.get_srv(a), None);
}

#[test]
fn registered_id_differs_from_uploaded_ids() {
    let mut pool = Pool::new();
    let mut handles = 0;
    run(
        &mut pool,
        TexturesDelta { set: vec![full(TextureId::Managed(0), 1, 1, 0)], free: vec![] },
        &mut handles,
    );
    let a = pool.register_user_texture("a".to_string());
    assert_ne!(a, TextureId::Managed(0));
    assert_eq!(pool.get_srv(TextureId::Managed(0)), Some(&"view-0".to_string()));
    assert_eq!(pool.get_srv(a), Some(&"a".to_string()));
}

#[test]
fn unregistered_id_resolves_to_nothing() {
    let mut pool = Pool::new();
    let a = pool.register_user_texture("a".to_string());
    assert!(pool.unregister_user_texture(a));
    assert_eq!(pool.get_srv(a), None);
    assert!(!pool.unregister_user_texture(a));
}

#[test]
fn unregister_leaves_managed_and_absent_ids_alone() {
    let mut pool = Pool::new();
    let mut handles = 0;
    let m = TextureId::Managed(3);
    run(&mut pool, TexturesDelta { set: vec![full(m, 2, 2, 0)], free: vec![] }, &mut handles);
    assert!(!pool.unregister_user_texture(m));
    assert_eq!(pool.get_srv(m), Some(&"view-0".to_string()));
    assert!(!pool.unregister_user_texture(TextureId::User(9)));
    assert!(!pool.unregister_user_texture(TextureId::Managed(9)));
}

#[test]
fn full_upload_creates_a_managed_texture() {
    let mut pool = Pool::new();
    let mut handles = 40;
    let m = TextureId::Managed(1);
    let steps = run(&mut pool, TexturesDelta { set: vec![full(m, 2, 3, 7)], free: vec![] }, &mut handles);
    assert_eq!(steps.len(), 2);
    match &steps[0] {
        UpdateStep::CreateTexture(up) => {
            assert_eq!((up.width, up.height, up.row_pitch), (2, 3, 8));
            assert_eq!(up.data.len(), 24);
            assert_eq!(&up.data[0..4], &[7, 7, 7, 255]);
        },
        other => panic!("unexpected step {other:?}"),
    }
    assert_eq!(steps[1], UpdateStep::Done);
    assert_eq!(pool.get_srv(m), Some(&"view-40".to_string()));
    assert_eq!(pool.get_tex(m), Some(&40));
    assert_eq!(pool.get_image(m), Some(&solid(2, 3, 7)));
}

#[test]
fn full_upload_replaces_the_entry() {
    let mut pool = Pool::new();
    let mut handles = 0;
    let m = TextureId::Managed(1);
    run(
        &mut pool,
        TexturesDelta { set: vec![full(m, 2, 2, 1), full(m, 3, 1, 2)], free: vec![] },
        &mut handles,
    );
    assert_eq!(pool.get_tex(m), Some(&1));
    assert_eq!(pool.get_image(m), Some(&solid(3, 1, 2)));
}

#[test]
fn upload_is_not_applied_before_install() {
    let mut pool = Pool::new();
    let m = TextureId::Managed(1);
    let mut pass = pool.begin_update(TexturesDelta { set: vec![full(m, 1, 1, 0)], free: vec![m] });
    assert!(matches!(pool.update(&mut pass), UpdateStep::CreateTexture(_)));
    assert_eq!(pool.get_srv(m), None);
    assert!(matches!(pool.update(&mut pass), UpdateStep::CreateTexture(_)));
    assert!(!pass.is_done());
}

#[test]
fn install_without_a_pending_upload_changes_nothing() {
    let mut pool = Pool::new();
    let m = TextureId::Managed(1);
    let mut pass = pool.begin_update(TexturesDelta { set: vec![part(m, 1, 1, 0, (0, 0))], free: vec![] });
    assert!(!pool.install(&mut pass, 1, "v".to_string()));
    assert_eq!(pool.get_srv(m), None);
    assert_eq!(pool.update(&mut pass), UpdateStep::Rejected(m, SetKind::NotManaged));
    assert!(!pool.install(&mut pass, 1, "v".to_string()));
    assert_eq!(pool.update(&mut pass), UpdateStep::Done);
    assert!(!pool.install(&mut pass, 1, "v".to_string()));
}

#[test]
fn upload_then_free_in_one_batch_is_gone() {
    let mut pool = Pool::new();
    let mut handles = 0;
    let m = TextureId::Managed(5);
    let steps = run(&mut pool, TexturesDelta { set: vec![full(m, 2, 2, 0)], free: vec![m] }, &mut handles);
    assert_eq!(steps.len(), 2);
    assert_eq!(pool.get_srv(m), None);
    assert_eq!(pool.get_tex(m), None);
}

#[test]
fn free_removes_only_managed_textures() {
    let mut pool = Pool::new();
    let mut handles = 0;
    let u = pool.register_user_texture("mine".to_string());
    let m = TextureId::Managed(0);
    run(&mut pool, TexturesDelta { set: vec![full(m, 1, 1, 0)], free: vec![] }, &mut handles);
    run(
        &mut pool,
        TexturesDelta { set: vec![], free: vec![u, m, TextureId::Managed(77)] },
        &mut handles,
    );
    assert_eq!(pool.get_srv(u), Some(&"mine".to_string()));
    assert_eq!(pool.get_srv(m), None);
}

#[test]
fn free_on_its_own() {
    let mut pool = Pool::new();
    let mut handles = 0;
    let a = TextureId::Managed(0);
    let b = TextureId::Managed(1);
    run(
        &mut pool,
        TexturesDelta { set: vec![full(a, 1, 1, 0), full(b, 1, 1, 0)], free: vec![] },
        &mut handles,
    );
    pool.free(&vec![a, a]);
    assert_eq!(pool.get_srv(a), None);
    assert_eq!(pool.get_srv(b), Some(&"view-1".to_string()));
}

#[test]
fn partial_update_writes_pixels_and_yields_the_region() {
    let mut pool = Pool::new();
    let mut handles = 0;
    let m = TextureId::Managed(2);
    let steps = run(
        &mut pool,
        TexturesDelta { set: vec![full(m, 3, 2, 0), part(m, 2, 1, 9, (1, 1))], free: vec![] },
        &mut handles,
    );
    assert_eq!(steps.len(), 3);
    match &steps[1] {
        UpdateStep::UpdateRegion(tid, r) => {
            assert_eq!(*tid, m);
            assert_eq!((r.left, r.top, r.right, r.bottom), (1, 1, 3, 2));
            assert_eq!(r.row_pitch, 8);
            assert_eq!(r.data, vec![9, 9, 9, 255, 9, 9, 9, 255]);
        },
        other => panic!("unexpected step {other:?}"),
    }
    let z = Color32 { r: 0, g: 0, b: 0, a: 255 };
    let n = Color32 { r: 9, g: 9, b: 9, a: 255 };
    let image = pool.get_image(m).unwrap();
    assert_eq!(image.pixels, vec![z, z, z, z, n, n]);
    assert_eq!((image.width, image.height), (3, 2));
    assert_eq!(pool.get_tex(m), Some(&0));
    assert_eq!(pool.get_srv(m), Some(&"view-0".to_string()));
}

#[test]
fn partial_update_of_unknown_id_is_rejected() {
    let mut pool = Pool::new();
    let mut handles = 0;
    let m = TextureId::Managed(2);
    let steps = run(
        &mut pool,
        TexturesDelta { set: vec![part(m, 1, 1, 9, (0, 0))], free: vec![] },
        &mut handles,
    );
    assert_eq!(steps, vec![UpdateStep::Rejected(m, SetKind::NotManaged), UpdateStep::Done]);
    assert_eq!(pool.get_srv(m), None);
    assert_eq!(handles, 0);
}

#[test]
fn partial_update_of_user_texture_is_rejected() {
    let mut pool = Pool::new();
    let mut handles = 0;
    let u = pool.register_user_texture("mine".to_string());
    let steps = run(
        &mut pool,
        TexturesDelta { set: vec![part(u, 1, 1, 9, (0, 0))], free: vec![] },
        &mut handles,
    );
    assert_eq!(steps, vec![UpdateStep::Rejected(u, SetKind::NotManaged), UpdateStep::Done]);
    assert_eq!(pool.get_srv(u), Some(&"mine".to_string()));
    assert_eq!(pool.get_image(u), None);
    assert_eq!(pool.get_tex(u), None);
}

#[test]
fn rest_of_the_batch_goes_on_after_a_rejection() {
    let mut pool = Pool::new();
    let mut handles = 0;
    let a = TextureId::Managed(0);
    let b = TextureId::Managed(1);
    let steps = run(
        &mut pool,
        TexturesDelta { set: vec![part(a, 1, 1, 9, (0, 0)), full(b, 1, 1, 3)], free: vec![] },
        &mut handles,
    );
    assert_eq!(steps.len(), 3);
    assert_eq!(pool.get_srv(b), Some(&"view-0".to_string()));
}

#[test]
fn plan_names_every_kind() {
    let mut pool = Pool::new();
    let mut handles = 0;
    let m = TextureId::Managed(0);
    run(&mut pool, TexturesDelta { set: vec![full(m, 4, 4, 0)], free: vec![] }, &mut handles);
    let u = pool.register_user_texture("mine".to_string());

    let broken = ImageDelta {
        image: ColorImage { width: 2, height: 2, pixels: vec![] },
        pos: None,
    };
    assert_eq!(pool.plan(m, &broken), SetKind::Malformed);
    assert_eq!(pool.plan(m, &full(m, 1, 1, 0).1), SetKind::Upload);
    assert_eq!(pool.plan(u, &full(u, 1, 1, 0).1), SetKind::Upload);
    assert_eq!(pool.plan(m, &part(m, 2, 2, 0, (2, 2)).1), SetKind::Patch);
    assert_eq!(pool.plan(m, &part(m, 2, 2, 0, (3, 2)).1), SetKind::OutOfRange);
    assert_eq!(pool.plan(m, &part(m, 2, 2, 0, (2, 3)).1), SetKind::OutOfRange);
    assert_eq!(pool.plan(u, &part(u, 1, 1, 0, (0, 0)).1), SetKind::NotManaged);
    assert_eq!(pool.plan(TextureId::Managed(8), &part(m, 1, 1, 0, (0, 0)).1), SetKind::NotManaged);
    let empty_whole = ImageDelta { image: solid(0, 0, 0), pos: None };
    assert_eq!(pool.plan(m, &empty_whole), SetKind::MissingOffset);
    assert_eq!(pool.plan(TextureId::Managed(8), &empty_whole), SetKind::NotManaged);
}

#[test]
fn skipped_deltas_leave_the_texture_as_it_was() {
    let mut pool = Pool::new();
    let mut handles = 0;
    let m = TextureId::Managed(0);
    run(&mut pool, TexturesDelta { set: vec![full(m, 2, 2, 4)], free: vec![] }, &mut handles);
    let broken = ImageDelta {
        image: ColorImage { width: 1, height: 1, pixels: vec![] },
        pos: Some((0, 0)),
    };
    let steps = run(
        &mut pool,
        TexturesDelta {
            set: vec![
                part(m, 2, 2, 9, (1, 0)),
                (m, broken),
                (m, ImageDelta { image: solid(0, 0, 0), pos: None }),
            ],
            free: vec![],
        },
        &mut handles,
    );
    assert_eq!(
        steps,
        vec![
            UpdateStep::Rejected(m, SetKind::OutOfRange),
            UpdateStep::Rejected(m, SetKind::Malformed),
            UpdateStep::Rejected(m, SetKind::MissingOffset),
            UpdateStep::Done,
        ]
    );
    assert_eq!(pool.get_image(m), Some(&solid(2, 2, 4)));
}

#[test]
fn done_is_reported_again_without_freeing_twice() {
    let mut pool = Pool::new();
    let m = TextureId::Managed(0);
    let mut pass = pool.begin_update(TexturesDelta { set: vec![], free: vec![m] });
    assert_eq!(pool.update(&mut pass), UpdateStep::Done);
    pool.insert_managed(m, &solid(1, 1, 0), 1, "v".to_string());
    assert_eq!(pool.update(&mut pass), UpdateStep::Done);
    assert_eq!(pool.get_srv(m), Some(&"v".to_string()));
}

#[test]
fn update_partial_on_its_own() {
    let mut pool = Pool::new();
    let m = TextureId::User(4);
    pool.insert_managed(m, &solid(2, 2, 0), 11, "v".to_string());
    let r = pool.update_partial(m, &solid(1, 2, 5), 1, 0);
    assert_eq!((r.left, r.top, r.right, r.bottom, r.row_pitch), (1, 0, 2, 2, 4));
    let z = Color32 { r: 0, g: 0, b: 0, a: 255 };
    let n = Color32 { r: 5, g: 5, b: 5, a: 255 };
    assert_eq!(pool.get_image(m).unwrap().pixels, vec![z, n, z, n]);
}

#[test]
fn texture_kinds() {
    let user: Texture<u32, String> = Texture::User { srv: "v".to_string() };
    assert!(user.is_user());
    assert!(!user.is_managed());
    assert_eq!(user.srv(), "v");
}
