//! Animation-directive engine for skeletal playback.
//!
//! The crate models the desired playback state of a logical "animatable"
//! owner as a directive (which clips to play, at what speed, under which
//! mask, looping or not, and what to play next), builds an indexed blend
//! graph over a model's clips, reconciles the desired state against an
//! animation player with minimal disruption, and advances queued future
//! directives when playback finishes.

pub mod binding;
pub mod directive;
pub mod events;
pub mod graph;
pub mod player;
pub mod sync;
pub mod watcher;

pub use binding::AncestorInfo;
pub use binding::Binding;
pub use binding::PGAnimatable;
pub use binding::update_animatable;
pub use directive::Anim;
pub use directive::AnimModel;
pub use directive::Anims;
pub use directive::AnimsConf;
pub use events::AnimEndEvent;
pub use events::AnimStartEvent;
pub use events::ConfigError;
pub use events::PGAnimsPlugin;
pub use events::attach_animation_graphs;
pub use events::split_path;
pub use graph::AnimGraphInit;
pub use graph::ClipHandle;
pub use graph::PGAnimGraph;
pub use graph::init_graph;
pub use sync::update_animation;
pub use watcher::play_next_after_finished;
