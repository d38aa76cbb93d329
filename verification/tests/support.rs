use engine::color::RGBA;
use engine::gfx::input::{Action, Event, State};
use engine::gfx::keyboard::Key;
use engine::gfx::mouse;
use engine::gfx::util::{map_pixel_to_point, map_point_to_pixel};
use engine::gfx::vertex::FormatInfo;
use engine::gfx::CullingMode;
use engine::net::network::Id;
use engine::net::p2p;
use engine::num;
use engine::num::{Bounded, Cast, One, Signed, Zero};

#[test]
fn numeric_trait_values() {
    assert_eq!(num::zero::<u16>(), 0);
    assert_eq!(num::one::<u32>(), 1);
    assert_eq!(num::min::<i64>(), i64::MIN);
    assert_eq!(num::max::<u8>(), u8::MAX);
    assert_eq!(num::cast::<i64, u8>(200u8), 200i64);
    assert_eq!(num::cast::<u16, usize>(70000usize), 4464u16);
    let wide: i64 = 3000000000u64.cast();
    assert_eq!(wide, 3000000000i64);
    assert!(0u32.is_zero());
    assert!(!5u32.is_zero());
    assert_eq!((-7i64).abs(), 7);
    assert_eq!(7i32.abs(), 7);
    assert_eq!(<u16 as Bounded>::max(), 65535);
    assert_eq!(<i32 as Bounded>::min(), -2147483648);
}

#[test]
fn average_truncates_towards_zero() {
    assert_eq!(num::average(&vec![1, 2, 3]), 2);
    assert_eq!(num::average(&vec![1, 2]), 1);
    assert_eq!(num::average(&vec![-3, -4]), -3);
    assert_eq!(num::average(&vec![]), 0);
    assert_eq!(num::average(&vec![i64::MAX, i64::MAX]), i64::MAX);
}

#[test]
fn rgba_maps_channels() {
    let c = RGBA(10u8, 20, 30, 40);
    let doubled = c.map(|v: u8| v * 2);
    assert_eq!(doubled, RGBA(20, 40, 60, 80));
}

#[test]
fn culling_mode_exists() {
    let mode = CullingMode::Back;
    assert!(matches!(mode, CullingMode::Back));
    assert!(!matches!(CullingMode::Front, CullingMode::Back));
}

#[test]
fn keyboard_state_tracks_nothing_by_default() {
    let state = engine::gfx::keyboard::State::new();
    assert!(!state.pressed(Key::Space));
    assert_eq!(state.pressed_keys().len(), 0);
}

#[test]
fn mouse_press_and_release() {
    let mut state = State::new();
    let press = Event::Mouse((
        mouse::Kind::Button(mouse::Button::Left, Action::Press),
        mouse::Info { position: (10, 20) },
    ));
    state.process(&press);
    assert_eq!(state.mouse().position(), (10, 20));
    assert!(state.mouse().pressed(mouse::Button::Left));
    assert!(!state.mouse().pressed(mouse::Button::Right));
    let release = Event::Mouse((
        mouse::Kind::Button(mouse::Button::Left, Action::Release),
        mouse::Info { position: (11, 21) },
    ));
    state.process(&release);
    assert_eq!(state.mouse().position(), (11, 21));
    assert!(!state.mouse().pressed(mouse::Button::Left));
    let moved = Event::Mouse((mouse::Kind::Move, mouse::Info { position: (5, 5) }));
    state.process(&moved);
    assert_eq!(state.mouse().position(), (5, 5));
}

#[test]
fn coordinate_mapping() {
    assert_eq!(map_point_to_pixel((0, 0), (800, 600)), (400, 300));
    assert_eq!(map_point_to_pixel((-1, 1), (800, 600)), (0, 600));
    assert_eq!(map_pixel_to_point((400, 300), (1, 1)), (799, 599));
}

#[test]
fn format_info_sizes() {
    let info = FormatInfo { component_size: 4, component_count: 3, component_type: 0 };
    assert_eq!(info.total_size(), 12);
    let empty = FormatInfo::empty();
    assert_eq!(empty.total_size(), 0);
    assert_eq!(empty.component_type, 0);
}

#[test]
fn p2p_nodes_and_neighbours() {
    let mut a: p2p::Node<()> = p2p::Node::new(Id(1));
    let b: p2p::Node<()> = p2p::Node::new(Id(2));
    a.connect(Id(2));
    assert_eq!(a.id(), Id(1));
    assert!(a.is_neighbour_of(Id(2)));
    assert!(!a.is_neighbour_of(Id(3)));
    assert_eq!(a.neighbour_ids(), &vec![Id(2)]);

    let mut net: p2p::Network<()> = p2p::Network::empty(Id(0));
    assert_eq!(net.local_id(), Id(0));
    net.add(a);
    net.add(b);
    assert_eq!(net.nodes().len(), 2);
    let probe: p2p::Node<()> = p2p::Node::new(Id(2));
    let back = net.neighbours(&probe);
    assert_eq!(back, vec![0]);
    assert!(net.sanity_check().is_ok());
    let dup: p2p::Node<()> = p2p::Node::new(Id(2));
    net.add(dup);
    assert!(net.sanity_check().is_err());
}

#[test]
fn connections_can_be_set() {
    let mut node: p2p::Node<u32> = p2p::Node::new(Id(9));
    node.set_connection(Some(77));
    node.set_connection(None);
    assert_eq!(node.id(), Id(9));
}
