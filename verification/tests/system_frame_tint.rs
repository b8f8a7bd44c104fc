use particles::controls::{Controls, Key};
use particles::frame::{frame_phases, Phase};
use particles::system::{advanced_growth, ParticleSystem};
use particles::tint::{particle_tint, Channel, Shade, Tint};

#[test]
fn new_system_is_empty() {
    let s: ParticleSystem<u32> = ParticleSystem::new();
    assert!(s.particle_list.is_empty());
    assert_eq!(s.collisions, 0);
}

#[test]
fn init_appends_size_particles() {
    let mut s: ParticleSystem<u32> = ParticleSystem::new();
    s.init(3, || 7);
    assert_eq!(s.particle_list, vec![7, 7, 7]);
    s.collisions = 4;
    s.init(2, || 9);
    assert_eq!(s.particle_list, vec![7, 7, 7, 9, 9]);
    assert_eq!(s.collisions, 4);
}

#[test]
fn init_with_zero_or_negative_size_adds_nothing() {
    let mut s: ParticleSystem<u32> = ParticleSystem::new();
    s.init(0, || 1);
    s.init(-4, || 1);
    s.init(i32::MIN, || 1);
    assert!(s.particle_list.is_empty());
}

#[test]
fn init_calls_the_maker_once_per_particle() {
    let counter = std::cell::Cell::new(0u32);
    let mut s: ParticleSystem<u32> = ParticleSystem::new();
    s.init(4, || {
        counter.set(counter.get() + 1);
        counter.get()
    });
    assert_eq!(s.particle_list, vec![1, 2, 3, 4]);
}

#[test]
fn growth_adds_the_collisions() {
    assert_eq!(advanced_growth(100, 7), Some((107, 7)));
    assert_eq!(advanced_growth(100, 0), Some((100, 0)));
}

#[test]
fn growth_keeps_list_and_count_together() {
    let mut s: ParticleSystem<u8> = ParticleSystem::new();
    s.init(100, || 0);
    s.collisions = 6;
    let (num, spawn) = advanced_growth(s.particle_list.len(), s.collisions).unwrap();
    s.init(spawn, || 1);
    assert_eq!(s.particle_list.len(), num);
    assert_eq!(num, 106);
}

#[test]
fn growth_past_i32_max_spawns_nothing() {
    let (num, spawn) = advanced_growth(100, 3_000_000_000).unwrap();
    assert_eq!(num, 3_000_000_100);
    assert!(spawn < 0);
    let mut s: ParticleSystem<u8> = ParticleSystem::new();
    s.init(spawn, || 0);
    assert!(s.particle_list.is_empty());
}

#[test]
fn growth_overflow_is_refused() {
    assert_eq!(advanced_growth(usize::MAX, 1), None);
    assert_eq!(advanced_growth(usize::MAX - 1, 1), Some((usize::MAX, 1)));
}

#[test]
fn plain_step_moves_then_collides() {
    assert_eq!(frame_phases(&Controls::new()), vec![Phase::Movement, Phase::Collision]);
}

#[test]
fn forces_come_between_movement_and_collisions() {
    let mut c = Controls::new();
    c.gravity = true;
    c.wind = true;
    c.advanced_render_mode = true;
    assert_eq!(
        frame_phases(&c),
        vec![Phase::Movement, Phase::Gravity, Phase::Wind, Phase::Collision, Phase::Growth]
    );
    c.apply_key(Key::W, true);
    assert_eq!(
        frame_phases(&c),
        vec![Phase::Movement, Phase::Wind, Phase::Collision, Phase::Growth]
    );
}

#[test]
fn original_particles_red_spawned_blue() {
    let c = Controls::new();
    assert_eq!(particle_tint(&c, 0, 100), Tint { channel: Channel::Red, shade: Shade::Full });
    assert_eq!(particle_tint(&c, 99, 100), Tint { channel: Channel::Red, shade: Shade::Full });
    assert_eq!(particle_tint(&c, 100, 100), Tint { channel: Channel::Blue, shade: Shade::Full });
}

#[test]
fn shade_follows_the_render_mode() {
    let mut c = Controls::new();
    c.apply_key(Key::B, true);
    assert_eq!(particle_tint(&c, 3, 10).shade, Shade::Speed);
    c.apply_key(Key::N, true);
    assert_eq!(particle_tint(&c, 30, 10), Tint { channel: Channel::Blue, shade: Shade::Proximity });
    c.apply_key(Key::V, true);
    assert_eq!(particle_tint(&c, 3, 10).shade, Shade::Full);
}

#[test]
fn system_can_be_cloned_and_printed() {
    let mut s: ParticleSystem<u32> = ParticleSystem::new();
    s.init(2, || 5);
    s.collisions = 3;
    let t = s.clone();
    assert_eq!(t.particle_list, vec![5, 5]);
    assert_eq!(t.collisions, 3);
    assert!(format!("{:?}", t).contains("collisions: 3"));
}
