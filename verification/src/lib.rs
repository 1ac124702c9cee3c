//! Frontary: the data, rules and state behind a set of web form and list
//! components (host/network inputs, password rules, comparisons, check boxes,
//! page navigation, notifications), with their behaviour stated as contracts.
use vstd::prelude::*;

pub mod check_tree;
pub mod checkbox;
pub mod checked;
pub mod column_text;
pub mod comparison;
pub mod comparison_input;
pub mod config;
pub mod encoding;
pub mod form;
pub mod home;
pub mod host_input;
pub mod ip;
pub mod items;
pub mod list;
pub mod list_control;
pub mod list_order;
pub mod modal;
pub mod model;
pub mod network;
pub mod notification;
pub mod pages;
pub mod password;
pub mod range_order;
pub mod required;
pub mod row_item;
pub mod shorten;
pub mod sorting;
pub mod tag_input;
pub mod text;
pub mod localized;
pub mod verification;

pub use crate::checkbox::CheckStatus;
pub use crate::comparison::{Comparison, ComparisonKind, Value as ComparisonValue, ValueKind};
pub use crate::items::{
    ComparisonItem, FileItem, HostNetworkGroupItem, InputNic, InputTag, InputTagGroup, NicItem,
    PasswordItem, SelectMultipleItem, SelectSingleItem, TagItem, TextItem, Unsigned32Item,
    VecSelectItem,
};
pub use crate::list::{
    DataType, DomainNameColumn, FileColumn, HostNetworkGroupColumn, Kind, MessageType,
    ModalDisplay, NicColumn, SelectMultipleColumn, SelectSingleColumn, SortColumn, SortListKind,
    SortStatus, TagColumn, TextColumn, Unsigned32Column, Unsigned8Column, VecSelectColumn,
};
pub use crate::row_item::{CheckboxColumn, GroupColumn, RadioColumn, RowColumn};
pub use crate::model::{
    ComplexSelection, EndpointKind, Item, Language, MoreAction, NetworkItem, OnOffAction,
    SelectionExtraInfo, ViewString,
};
pub use crate::network::{
    HostNetwork, InputHostNetworkGroup, IpRange, NetworkGroup, parse_host_network, sort_hosts,
    sort_networks, validate_host_network,
};
pub use crate::notification::{
    Category as NotificationCategory, CommonError, NotificationItem, NotificationType,
    gen_notifications,
};
pub use crate::pages::Info as PagesInfo;
pub use crate::password::{
    InvalidPasswordKind, Requirement as PasswordRequirement, check_password_requirements,
    invalid_password,
};
