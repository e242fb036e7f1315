//! Cluster-wide lookup of retained messages: the local matches of a topic
//! filter are merged with what every peer node reports.
pub mod laws;
pub mod reply;
pub mod retainer;
