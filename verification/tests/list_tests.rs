use airplane::aerodynamics::{
    AeroSurface, AeroSurfaceConfig, AeroSurfaceList, ControlAxes, ControlInputType,
    simulate_aerodynamics, update_flight_metrics, FlightMetric,
};
use airplane::vec3::{FxVec3, Pose, Rot3};

fn identity_rot() -> Rot3 {
    Rot3 {
        xx: 1_000_000, xy: 0, xz: 0,
        yx: 0, yy: 1_000_000, yz: 0,
        zx: 0, zy: 0, zz: 1_000_000,
    }
}

fn identity_pose() -> Pose {
    Pose { rot: identity_rot(), pos: FxVec3 { x: 0, y: 0, z: 0 } }
}

fn default_surface(input_type: ControlInputType, sensitivity: i64) -> AeroSurface {
    AeroSurface::new(AeroSurfaceConfig::default(), input_type, sensitivity).unwrap()
}

#[test]
fn empty_list_returns_thrust_only() {
    let list = AeroSurfaceList { surfaces: Vec::new() };
    let (force, torque) = list.calculate_forces(
        &identity_pose(),
        FxVec3 { x: 0, y: 0, z: -50_000_000 },
        FxVec3 { x: 0, y: 0, z: 0 },
        FxVec3 { x: 0, y: 0, z: 0 },
    );
    // forward is the negated third column of the rotation: (0, 0, -1)
    assert_eq!(force.x, 0);
    assert_eq!(force.y, 0);
    assert_eq!(force.z, -10_000_000_000);
    assert_eq!((torque.x, torque.y, torque.z), (0, 0, 0));
}

#[test]
fn single_surface_drag_opposes_motion() {
    // One surface at the body origin, the body flying along its forward
    // axis (negative z) at fifty metres per second: zero angle of attack,
    // pure skin-friction drag of 0.02 * q * area = 60 units on +z, plus
    // the thrust on -z. No torque.
    let list = AeroSurfaceList {
        surfaces: vec![(default_surface(ControlInputType::Neutral, 0), identity_pose())],
    };
    let (force, torque) = list.calculate_forces(
        &identity_pose(),
        FxVec3 { x: 0, y: 0, z: -50_000_000 },
        FxVec3 { x: 0, y: 0, z: 0 },
        FxVec3 { x: 0, y: 0, z: 0 },
    );
    assert_eq!(force.x, 0);
    assert_eq!(force.y, 0);
    assert_eq!(force.z, 60_000_000 - 10_000_000_000);
    assert_eq!((torque.x, torque.y, torque.z), (0, 0, 0));
}

#[test]
fn update_control_surface_angle_binds_each_channel() {
    let mut list = AeroSurfaceList {
        surfaces: vec![
            (default_surface(ControlInputType::Roll, 300_000), identity_pose()),
            (default_surface(ControlInputType::Pitch, -500_000), identity_pose()),
            (default_surface(ControlInputType::Yaw, 200_000), identity_pose()),
            (default_surface(ControlInputType::Neutral, 400_000), identity_pose()),
            (default_surface(ControlInputType::Flap, 400_000), identity_pose()),
        ],
    };
    let axes = ControlAxes { roll: 500_000, pitch: -2_000_000, yaw: 250_000 };
    list.update_control_surface_angle(&axes);
    // deflection = sensitivity * axis value, the axis clamped into [-1, 1]
    assert_eq!(list.surfaces[0].0.control_surface_angle, 150_000);
    assert_eq!(list.surfaces[1].0.control_surface_angle, 500_000);
    assert_eq!(list.surfaces[2].0.control_surface_angle, 50_000);
    assert_eq!(list.surfaces[3].0.control_surface_angle, 0);
    assert_eq!(list.surfaces[4].0.control_surface_angle, 0);
    // nothing else changes
    assert_eq!(list.surfaces[0].0.input_sensitivity, 300_000);
    assert_eq!(list.surfaces[1].0.config, AeroSurfaceConfig::default());
}

#[test]
fn deflection_shifts_lift_at_fixed_flow() {
    // A surface with a flap: deflecting it changes the zero-lift angle and
    // so the lift at the same airflow.
    let config = AeroSurfaceConfig::new(
        6_280_000, 20_000, 0, 260_000, -260_000, 1_000_000, 2_000_000, 200_000,
    )
    .unwrap();
    let mut list = AeroSurfaceList {
        surfaces: vec![(
            AeroSurface::new(config, ControlInputType::Pitch, 300_000).unwrap(),
            identity_pose(),
        )],
    };
    let body = identity_pose();
    let linvel = FxVec3 { x: 0, y: 0, z: -50_000_000 };
    let zero = FxVec3 { x: 0, y: 0, z: 0 };
    let (f_neutral, _) = list.calculate_forces(&body, linvel, zero, zero);
    list.update_control_surface_angle(&ControlAxes { roll: 0, pitch: 1_000_000, yaw: 0 });
    assert_eq!(list.surfaces[0].0.control_surface_angle, 300_000);
    let (f_deflected, _) = list.calculate_forces(&body, linvel, zero, zero);
    assert_ne!(f_neutral.y, f_deflected.y, "deflection must change the force");
}

#[test]
fn simulate_aerodynamics_matches_direct_call() {
    let list = AeroSurfaceList {
        surfaces: vec![(default_surface(ControlInputType::Neutral, 0), identity_pose())],
    };
    let body = identity_pose();
    let linvel = FxVec3 { x: 0, y: -1_000_000, z: -50_000_000 };
    let angvel = FxVec3 { x: 100_000, y: 0, z: 0 };
    let direct = list.calculate_forces(&body, linvel, angvel, FxVec3 { x: 0, y: 0, z: 0 });
    let via = simulate_aerodynamics(&list, &body, FxVec3 { x: 0, y: 0, z: 0 }, linvel, angvel);
    assert_eq!(direct.0, via.0);
    assert_eq!(direct.1, via.1);
}

#[test]
fn offset_surface_produces_torque() {
    // A wing mounted off-centre: the same drag now has a moment arm, so a
    // torque appears about the vertical axis.
    let wing_pose = Pose { rot: identity_rot(), pos: FxVec3 { x: 4_500_000, y: 0, z: 0 } };
    let list = AeroSurfaceList {
        surfaces: vec![(default_surface(ControlInputType::Neutral, 0), wing_pose)],
    };
    let (_, torque) = list.calculate_forces(
        &identity_pose(),
        FxVec3 { x: 0, y: 0, z: -50_000_000 },
        FxVec3 { x: 0, y: 0, z: 0 },
        FxVec3 { x: 0, y: 0, z: 0 },
    );
    // drag on +z at x = +4.5 gives a torque about -y of 4.5 * 60 = 270
    assert_eq!(torque.y, -270_000_000);
    assert_eq!(torque.x, 0);
    assert_eq!(torque.z, 0);
}

#[test]
fn flight_metrics_read_pose_and_velocity() {
    let body = Pose { rot: identity_rot(), pos: FxVec3 { x: 0, y: 950_000_000, z: 0 } };
    // forward is -z at identity: flying forward at 60 and climbing at 2
    let linvel = FxVec3 { x: 0, y: 2_000_000, z: -60_000_000 };
    let m = update_flight_metrics(&body, linvel);
    assert_eq!(m.get(FlightMetric::Airspeed), 60_000_000);
    assert_eq!(m.get(FlightMetric::VerticalSpeed), 2_000_000);
    assert_eq!(m.get(FlightMetric::Height), 950_000_000);
}
