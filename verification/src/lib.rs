//! A dataflow runtime for software packet pipelines.
//!
//! A pipeline is a graph of stages: classify, join, process and clone, and
//! stages assembled from these. The library describes a stage twice.
//!
//! A builder, in `link` and `composite`, is handed the ingress streams and
//! the parameters of a stage and returns its link: the tasks of the stage,
//! and the egress streams, which the next stage takes as its ingress. A
//! stream stands for the packets that it yields, all of them at hand at
//! once, so that building a link settles what its egress streams yield: a
//! function of what the stage is fed, which the contract of the builder
//! states. A builder that is misused builds nothing.
//!
//! A step function, in `task`, does what a task of the stage does when it is
//! scheduled once: it moves at most one packet from a bounded channel to a
//! bounded channel, or finds that it has to wait. What holds of a stage
//! whatever the order in which its task and the tasks around it are
//! scheduled is stated as an invariant that every step keeps.
pub mod codegen;
pub mod composite;
pub mod element;
pub mod error;
pub mod link;
pub mod task;
