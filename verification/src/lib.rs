//! Bootstraps Kubernetes clusters with kubeadm, Cilium, the Gateway API, and
//! OpenEBS LocalPV.
//!
//! Every command of the tool is a [`plan::Plan`]: a list of steps that run
//! programs, ask the host something, or print. A [`workflow::Workflow`] carries
//! a plan out one action at a time; the caller performs each action and reports
//! how it ended, and the workflow decides what follows.
pub mod cli;
pub mod cluster;
pub mod cmd;
pub mod cni;
pub mod config;
pub mod deps;
pub mod ends;
pub mod error;
pub mod laws;
pub mod net;
pub mod plan;
pub mod run;
pub mod storage;
pub mod text;
pub mod workflow;
