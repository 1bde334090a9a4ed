use egui_directx11::texture::{Image, ImageDelta, SetPlan, TextureId, TexturePool, UpdateWarning};

type Pool = TexturePool<u32, &'static str>;

const RED: [u8; 4] = [255, 0, 0, 255];
const BLACK: [u8; 4] = [0, 0, 0, 255];
const WHITE: [u8; 4] = [255, 255, 255, 255];

fn image(width: usize, height: usize, pixels: Vec<[u8; 4]>) -> Image {
    Image { width, height, pixels }
}

fn whole(img: Image) -> ImageDelta {
    ImageDelta { image: img, pos: None }
}

fn patch(x: usize, y: usize, img: Image) -> ImageDelta {
    ImageDelta { image: img, pos: Some((x, y)) }
}

/// Runs one delta entry the way the device layer does, with `tex` standing for
/// the GPU texture that a creation would make.
fn apply(pool: &mut Pool, tid: TextureId, delta: ImageDelta, tex: u32, view: &'static str) -> SetPlan {
    let plan = pool.plan_set(tid, &delta);
    match plan {
        SetPlan::Create => pool.insert_managed(tid, tex, view, delta.image),
        SetPlan::Patch => assert!(pool.apply_patch(tid, &delta)),
        SetPlan::Ignore(_) => {}
    }
    plan
}

#[test]
fn new_pool_is_empty() {
    let pool = Pool::new();
    assert_eq!(pool.get_srv(TextureId::Managed(0)), None);
    assert_eq!(pool.get_srv(TextureId::User(0)), None);
    assert!(pool.can_register());
}

#[test]
fn whole_image_creation_is_visible() {
    let mut pool = Pool::new();
    let tid = TextureId::Managed(7);
    let plan = apply(&mut pool, tid, whole(image(3, 2, vec![RED; 6])), 1, "font");
    assert_eq!(plan, SetPlan::Create);
    assert_eq!(pool.get_srv(tid), Some(&"font"));
    let m = pool.managed(tid).unwrap();
    assert_eq!(m.pixels.len(), 6);
    assert_eq!((m.width, m.height, m.tex), (3, 2, 1));
}

#[test]
fn whole_image_replaces_existing_entry() {
    let mut pool = Pool::new();
    let tid = TextureId::Managed(1);
    apply(&mut pool, tid, whole(image(1, 1, vec![RED])), 1, "old");
    let plan = apply(&mut pool, tid, whole(image(2, 1, vec![WHITE, BLACK])), 2, "new");
    assert_eq!(plan, SetPlan::Create);
    assert_eq!(pool.get_srv(tid), Some(&"new"));
    let m = pool.managed(tid).unwrap();
    assert_eq!(m.pixels, vec![WHITE, BLACK]);
    assert_eq!(m.tex, 2);
}

#[test]
fn empty_or_malformed_whole_image_is_ignored() {
    let mut pool = Pool::new();
    let tid = TextureId::Managed(1);
    let plan = apply(&mut pool, tid, whole(image(0, 4, vec![])), 1, "a");
    assert_eq!(plan, SetPlan::Ignore(UpdateWarning::InvalidImage));
    let plan = apply(&mut pool, tid, whole(image(2, 2, vec![RED; 3])), 1, "a");
    assert_eq!(plan, SetPlan::Ignore(UpdateWarning::InvalidImage));
    assert_eq!(pool.get_srv(tid), None);
}

#[test]
fn partial_update_changes_only_the_rectangle() {
    let mut pool = Pool::new();
    let tid = TextureId::Managed(3);
    apply(&mut pool, tid, whole(image(3, 3, vec![BLACK; 9])), 1, "t");
    let plan = apply(&mut pool, tid, patch(1, 0, image(2, 2, vec![RED, WHITE, WHITE, RED])), 9, "x");
    assert_eq!(plan, SetPlan::Patch);
    let m = pool.managed(tid).unwrap();
    assert_eq!(
        m.pixels,
        vec![BLACK, RED, WHITE, BLACK, WHITE, RED, BLACK, BLACK, BLACK]
    );
    assert_eq!((m.tex, m.width, m.height), (1, 3, 3));
    assert_eq!(pool.get_srv(tid), Some(&"t"));
}

#[test]
fn checkerboard_with_one_pixel_replaced() {
    let mut pool = Pool::new();
    let t1 = TextureId::Managed(1);
    let checker = vec![BLACK, WHITE, WHITE, BLACK];
    apply(&mut pool, t1, whole(image(2, 2, checker)), 1, "t1");
    apply(&mut pool, t1, patch(1, 1, image(1, 1, vec![RED])), 0, "unused");
    let m = pool.managed(t1).unwrap();
    assert_eq!(m.pixels, vec![BLACK, WHITE, WHITE, RED]);
}

#[test]
fn partial_update_of_unknown_texture_is_ignored() {
    let mut pool = Pool::new();
    apply(&mut pool, TextureId::Managed(1), whole(image(1, 1, vec![RED])), 1, "a");
    let tid = TextureId::Managed(2);
    let delta = patch(0, 0, image(1, 1, vec![WHITE]));
    assert_eq!(pool.plan_set(tid, &delta), SetPlan::Ignore(UpdateWarning::UnknownTexture));
    assert!(!pool.apply_patch(tid, &delta));
    assert_eq!(pool.get_srv(tid), None);
    assert_eq!(pool.managed(TextureId::Managed(1)).unwrap().pixels, vec![RED]);
}

#[test]
fn partial_update_of_user_texture_is_ignored() {
    let mut pool = Pool::new();
    let tid = pool.register_user_texture("app");
    let delta = patch(0, 0, image(1, 1, vec![WHITE]));
    assert_eq!(pool.plan_set(tid, &delta), SetPlan::Ignore(UpdateWarning::UserTexture));
    assert!(!pool.apply_patch(tid, &delta));
    assert_eq!(pool.get_srv(tid), Some(&"app"));
    assert!(pool.managed(tid).is_none());
}

#[test]
fn partial_update_out_of_bounds_is_ignored() {
    let mut pool = Pool::new();
    let tid = TextureId::Managed(0);
    apply(&mut pool, tid, whole(image(2, 2, vec![BLACK; 4])), 1, "a");
    let delta = patch(1, 1, image(2, 1, vec![RED, RED]));
    assert_eq!(pool.plan_set(tid, &delta), SetPlan::Ignore(UpdateWarning::OutOfBounds));
    assert!(!pool.apply_patch(tid, &delta));
    assert_eq!(pool.managed(tid).unwrap().pixels, vec![BLACK; 4]);
}

#[test]
fn register_then_get_returns_the_view() {
    let mut pool = Pool::new();
    let a = pool.register_user_texture("scene");
    assert_eq!(pool.get_srv(a), Some(&"scene"));
    let b = pool.register_user_texture("minimap");
    assert_ne!(a, b);
    assert_eq!(a, TextureId::User(0));
    assert_eq!(b, TextureId::User(1));
    assert_eq!(pool.get_srv(a), Some(&"scene"));
    assert_eq!(pool.get_srv(b), Some(&"minimap"));
}

#[test]
fn unregister_removes_only_user_views() {
    let mut pool = Pool::new();
    let managed = TextureId::Managed(0);
    apply(&mut pool, managed, whole(image(1, 1, vec![RED])), 1, "font");
    assert!(!pool.unregister_user_texture(managed));
    assert_eq!(pool.get_srv(managed), Some(&"font"));
    let user = pool.register_user_texture("app");
    assert!(pool.unregister_user_texture(user));
    assert_eq!(pool.get_srv(user), None);
    assert!(!pool.unregister_user_texture(user));
}

#[test]
fn free_drops_managed_textures_and_keeps_user_views() {
    let mut pool = Pool::new();
    let a = TextureId::Managed(0);
    let b = TextureId::Managed(1);
    apply(&mut pool, a, whole(image(1, 1, vec![RED])), 1, "a");
    apply(&mut pool, b, whole(image(1, 1, vec![RED])), 2, "b");
    let user = pool.register_user_texture("app");
    pool.free_textures(&vec![a, user, TextureId::Managed(5)]);
    assert_eq!(pool.get_srv(a), None);
    assert_eq!(pool.get_srv(b), Some(&"b"));
    assert_eq!(pool.get_srv(user), Some(&"app"));
}

#[test]
fn entry_kinds() {
    let mut pool = Pool::new();
    let user = pool.register_user_texture("app");
    let managed = TextureId::Managed(0);
    apply(&mut pool, managed, whole(image(1, 1, vec![RED])), 1, "font");
    assert!(pool.managed(managed).is_some());
    assert!(pool.managed(user).is_none());
    let t = egui_directx11::texture::Texture::<u32, &str>::User { srv: "x" };
    assert!(t.is_user());
    assert!(!t.is_managed());
    assert_eq!(t.srv(), &"x");
}
