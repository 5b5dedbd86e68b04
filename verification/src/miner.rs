//! What a mining client decides.

pub mod argv;
pub mod batch;
pub mod bench;
pub mod conf;
pub mod cpus;
pub mod front;
pub mod jobs;
pub mod json;
pub mod ladder;
pub mod machine;
pub mod offers;
pub mod pad;
pub mod page;
pub mod platforms;
pub mod pool;
pub mod ranks;
pub mod session;
pub mod status;
pub mod topo;
pub mod work;
pub mod worker;
