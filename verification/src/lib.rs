//! A small rigid-body physics engine over saturating fixed-point numbers.
//!
//! Bodies (spheres, planes, cubes) are advanced through time by
//! [`scene::PhysicsScene::update`]: a broad phase over bounding boxes, a
//! narrow phase that builds one contact manifold per candidate pair, an
//! impulse and friction resolver, gravity, and explicit Euler integration.
//! Every quantity is a [`math::scalar::Scalar`], so a step is a total,
//! deterministic function of the bodies and the time step.
pub mod collision;
pub mod math;
pub mod scene;
pub mod shapes;
