use particle_sim::files::{frame_file_name, log_dir_name};
use particle_sim::gpu::{
    field_pass, motion_pass, render_launch, setup_pass, Buffer, Kernel, Launch, Size3, Stage, Storage,
};
use particle_sim::params::{choose_seed, Placement};
use particle_sim::text::{push_decimal, push_decimal_padded};

#[test]
fn decimal_rendering() {
    let mut s = String::from("n=");
    push_decimal(&mut s, 0);
    assert_eq!(s, "n=0");
    let mut s = String::new();
    push_decimal(&mut s, u64::MAX);
    assert_eq!(s, "18446744073709551615");
    let mut s = String::new();
    push_decimal_padded(&mut s, 42, 5);
    assert_eq!(s, "00042");
    let mut s = String::new();
    push_decimal_padded(&mut s, 1234567, 5);
    assert_eq!(s, "1234567");
}

#[test]
fn frame_file_names() {
    assert_eq!(frame_file_name("out/run_0", 0), "out/run_0/frame_00000.png");
    assert_eq!(frame_file_name("out/run_0", 7), "out/run_0/frame_00007.png");
    assert_eq!(frame_file_name("d", 99999), "d/frame_99999.png");
    assert_eq!(frame_file_name("d", 123456), "d/frame_123456.png");
    assert_ne!(frame_file_name("d", 1), frame_file_name("d", 10));
}

#[test]
fn log_dir_names() {
    assert_eq!(log_dir_name("2024-05-01_12-30-00", 0), "out/2024-05-01_12-30-00_0");
    assert_eq!(log_dir_name("2024-05-01_12-30-00", 12), "out/2024-05-01_12-30-00_12");
}

#[test]
fn kernel_function_names() {
    assert_eq!(Kernel::EField.function_name(), "update_e_field");
    assert_eq!(Kernel::HField.function_name(), "update_h_field");
    assert_eq!(Kernel::EDipole.function_name(), "update_e_dipole");
    assert_eq!(Kernel::Velocity.function_name(), "update_velocity");
    assert_eq!(Kernel::Position.function_name(), "update_position");
    assert_eq!(Kernel::Direction.function_name(), "update_direction");
    assert_eq!(Kernel::CheckMaxVel.function_name(), "check_max_vel");
    assert_eq!(Kernel::Render.function_name(), "render_kernel");
}

#[test]
fn stage_kernels_and_bindings() {
    assert_eq!(Stage::EField.kernel(), Kernel::EField);
    assert_eq!(Stage::EField.buffers(), vec![Buffer::Position, Buffer::EDipole, Buffer::EField]);
    assert_eq!(Stage::HField.buffers(), vec![Buffer::Position, Buffer::Direction, Buffer::HField]);
    assert_eq!(Stage::EDipole.buffers(), vec![Buffer::EField, Buffer::Direction, Buffer::EDipole]);
    assert_eq!(
        Stage::Velocity.buffers(),
        vec![Buffer::Position, Buffer::Direction, Buffer::EDipole, Buffer::Velocity]
    );
    assert_eq!(Stage::CheckMaxVel.kernel(), Kernel::CheckMaxVel);
    assert_eq!(Stage::CheckMaxVel.buffers(), vec![Buffer::Velocity, Buffer::CheckOutput]);
    assert_eq!(Stage::Position.buffers(), vec![Buffer::Position, Buffer::Velocity]);
    assert_eq!(Stage::Direction.kernel(), Kernel::Direction);
    assert_eq!(Stage::Direction.buffers(), vec![Buffer::Direction, Buffer::HField, Buffer::EField]);
}

#[test]
fn stage_launch_sizes() {
    let one = Size3 { width: 1, height: 1, depth: 1 };
    assert_eq!(Stage::CheckMaxVel.launch(1000, 256), Launch { grid: one, threadgroup: one });
    assert_eq!(
        Stage::Velocity.launch(1000, 256),
        Launch {
            grid: Size3 { width: 1000, height: 1, depth: 1 },
            threadgroup: Size3 { width: 256, height: 1, depth: 1 },
        }
    );
    assert_eq!(
        Stage::Position.launch(100, 1024),
        Launch {
            grid: Size3 { width: 100, height: 1, depth: 1 },
            threadgroup: Size3 { width: 100, height: 1, depth: 1 },
        }
    );
}

#[test]
fn buffer_sizes_and_storage() {
    assert_eq!(Buffer::CheckOutput.storage(), Storage::Shared);
    assert_eq!(Buffer::Velocity.storage(), Storage::Private);
    assert_eq!(Buffer::CheckOutput.byte_len(1000, 12), 8);
    assert_eq!(Buffer::EDipole.byte_len(1000, 12), 12000);
    assert_eq!(Buffer::Position.byte_len(0, 12), 0);
}

#[test]
fn render_launch_for_default_camera() {
    let r = render_launch([1000, 800]);
    assert_eq!(r.launch.grid, Size3 { width: 1000, height: 800, depth: 1 });
    assert_eq!(r.launch.threadgroup, Size3 { width: 16, height: 16, depth: 1 });
    assert_eq!(r.image_bytes, 3_200_000);
}

#[test]
fn configured_seed_is_kept() {
    assert_eq!(choose_seed(Some(42)), Some(42));
    assert_eq!(choose_seed(Some(0)), Some(0));
    // a fresh seed is drawn otherwise; any value may come back
    let _ = choose_seed(None);
}

#[test]
fn placement_counts_kept_candidates() {
    let mut p = Placement::new(2);
    assert!(p.wants_more());
    assert!(!p.record(true));
    assert!(p.record(false));
    assert_eq!((p.placed(), p.attempts()), (1, 2));
    assert!(p.wants_more());
    assert!(p.record(false));
    assert!(!p.wants_more());
    assert!(!p.gave_up());
    assert_eq!(p.target(), 2);
}

#[test]
fn placement_gives_up_after_ten_thousand_attempts_per_particle() {
    let mut p = Placement::new(1);
    let mut n = 0;
    while p.wants_more() {
        p.record(true);
        n += 1;
        if p.gave_up() {
            break;
        }
    }
    assert_eq!(n, 10_001);
    assert_eq!(p.placed(), 0);
}

#[test]
fn placement_of_no_particles_is_done_at_once() {
    let p = Placement::new(0);
    assert!(!p.wants_more());
}

const ALL_STAGES: [Stage; 7] = [
    Stage::EField,
    Stage::HField,
    Stage::EDipole,
    Stage::Velocity,
    Stage::CheckMaxVel,
    Stage::Position,
    Stage::Direction,
];

#[test]
fn no_stage_binds_a_buffer_twice() {
    for s in ALL_STAGES {
        let bufs = s.buffers();
        for i in 0..bufs.len() {
            for j in i + 1..bufs.len() {
                assert_ne!(bufs[i], bufs[j]);
            }
        }
    }
}

#[test]
fn stages_run_distinct_kernels_from_distinct_functions() {
    for a in ALL_STAGES {
        assert_ne!(a.kernel(), Kernel::Render);
        for b in ALL_STAGES {
            if a != b {
                assert_ne!(a.kernel(), b.kernel());
                assert_ne!(a.kernel().function_name(), b.kernel().function_name());
            }
        }
    }
}

#[test]
fn only_the_check_binds_the_shared_buffer() {
    for s in ALL_STAGES {
        let shared = s.buffers().iter().any(|b| b.storage() == Storage::Shared);
        assert_eq!(shared, s == Stage::CheckMaxVel);
    }
}

#[test]
fn log_dirs_for_different_attempts_differ() {
    assert_ne!(log_dir_name("t", 1), log_dir_name("t", 11));
    assert_ne!(log_dir_name("t", 0), log_dir_name("t", 10));
}

#[test]
fn step_passes_in_order() {
    assert_eq!(setup_pass(), vec![Stage::EDipole]);
    assert_eq!(
        field_pass(),
        vec![
            Stage::EField,
            Stage::EDipole,
            Stage::EField,
            Stage::EDipole,
            Stage::HField,
            Stage::Velocity,
            Stage::CheckMaxVel,
        ]
    );
    assert_eq!(motion_pass(), vec![Stage::Position, Stage::Direction]);
    assert!(motion_pass().iter().all(|s| !s.buffers().contains(&Buffer::CheckOutput)));
}
