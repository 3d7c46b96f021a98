use voxel_world::player::collision::{diagonal, orthagonal, three_by_three};
use voxel_world::player::controller::{Key, PlayerController};
use voxel_world::terrain::Offset;

fn flat(x: i8, z: i8) -> Offset {
    Offset { x, y: 0, z }
}

#[test]
fn three_by_three_lists_the_eight_neighbors() {
    assert_eq!(
        three_by_three(),
        vec![
            flat(-1, -1),
            flat(-1, 0),
            flat(-1, 1),
            flat(0, -1),
            flat(0, 1),
            flat(1, -1),
            flat(1, 0),
            flat(1, 1),
        ]
    );
}

#[test]
fn orthagonal_lists_the_four_side_neighbors() {
    assert_eq!(orthagonal(), vec![flat(-1, 0), flat(0, -1), flat(1, 0), flat(0, 1)]);
}

#[test]
fn diagonal_walk() {
    assert_eq!(diagonal(), vec![flat(-1, -1), flat(3, -1), flat(1, 1), flat(1, 1)]);
}

#[test]
fn new_controller_holds_no_key_and_picks_material_one() {
    let controller = PlayerController::new();
    assert!(!controller.forward && !controller.backward);
    assert!(!controller.left && !controller.right);
    assert!(!controller.up && !controller.down);
    assert_eq!(controller.picked_block, 1);
}

#[test]
fn movement_keys_follow_press_and_release() {
    let mut controller = PlayerController::new();
    assert!(controller.process_keyboard(Key::KeyW, true));
    assert!(controller.forward);
    assert!(controller.process_keyboard(Key::ArrowUp, false));
    assert!(!controller.forward);
    assert!(controller.process_keyboard(Key::ArrowDown, true));
    assert!(controller.backward);
    assert!(controller.process_keyboard(Key::KeyS, false));
    assert!(!controller.backward);
    assert!(controller.process_keyboard(Key::KeyA, true));
    assert!(controller.left);
    assert!(controller.process_keyboard(Key::ArrowLeft, false));
    assert!(!controller.left);
    assert!(controller.process_keyboard(Key::ArrowRight, true));
    assert!(controller.right);
    assert!(controller.process_keyboard(Key::KeyD, false));
    assert!(!controller.right);
    assert!(controller.process_keyboard(Key::Space, true));
    assert!(controller.up);
    assert!(controller.process_keyboard(Key::ShiftLeft, true));
    assert!(controller.down);
    assert_eq!(
        controller,
        PlayerController {
            forward: false,
            backward: false,
            left: false,
            right: false,
            up: true,
            down: true,
            picked_block: 1,
        }
    );
}

#[test]
fn digit_keys_pick_a_material() {
    let keys = [
        (Key::Digit1, 1),
        (Key::Digit2, 2),
        (Key::Digit3, 3),
        (Key::Digit4, 4),
        (Key::Digit5, 5),
        (Key::Digit6, 6),
        (Key::Digit7, 7),
        (Key::Digit8, 8),
        (Key::Digit9, 9),
        (Key::Digit0, 10),
    ];
    for (key, material) in keys {
        let mut controller = PlayerController::new();
        assert!(controller.process_keyboard(key, true));
        assert_eq!(controller.picked_block, material);
        let mut controller = PlayerController::new();
        assert!(controller.process_keyboard(key, false));
        assert_eq!(controller.picked_block, material);
        assert!(!controller.forward && !controller.up);
    }
}

#[test]
fn other_keys_are_not_handled() {
    let mut controller = PlayerController::new();
    controller.process_keyboard(Key::KeyW, true);
    controller.process_keyboard(Key::Digit7, true);
    let before = controller;
    assert!(!controller.process_keyboard(Key::Other, true));
    assert!(!controller.process_keyboard(Key::Other, false));
    assert_eq!(controller, before);
}
