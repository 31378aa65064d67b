pub mod compare_with_priorities;
pub mod eq_update;
pub mod loadable;
pub mod resource_loadable;

pub use compare_with_priorities::compare_with_priorities;
pub use eq_update::eq_update;
pub use loadable::Loadable;
pub use resource_loadable::{
    resource_update, resource_update_with_vector_content, ResourceAction, ResourceError,
    ResourceLoadable, ResourcesAction,
};
