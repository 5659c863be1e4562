//! Ordering directives for list retrieval.

use vstd::prelude::*;

verus! {

/// Direction of an ordered retrieval.
#[derive(Clone, Copy, PartialEq, Eq, Structural, Debug)]
pub enum OrderDirection {
    /// Ascending order direction.
    Asc,
    /// Descending order direction.
    Desc,
}

impl OrderDirection {
    /// The direction used when none is given.
    pub fn default_value() -> (r: OrderDirection)
        ensures
            r == OrderDirection::Asc,
    {
        OrderDirection::Asc
    }

    /// The sorting sign this direction denotes in a store query.
    pub fn to_i32(&self) -> (r: i32)
        ensures
            *self == OrderDirection::Asc ==> r == 1,
            *self == OrderDirection::Desc ==> r == -1,
    {
        match self {
            OrderDirection::Asc => 1,
            OrderDirection::Desc => -1,
        }
    }
}

/// The fields an order list can be ordered by.
#[derive(Clone, Copy, PartialEq, Eq, Structural, Debug)]
pub enum OrderOrderField {
    /// Orders by "id".
    Id,
    /// Orders by "user_id".
    UserId,
    /// Orders by "name".
    Name,
    /// Orders by "created_at".
    CreatedAt,
    /// Orders by "last_updated_at".
    LastUpdatedAt,
}

impl OrderOrderField {
    /// The store key this field denotes.
    pub fn as_str(&self) -> (r: &'static str)
        ensures
            *self == OrderOrderField::Id ==> r@ == "_id"@,
            *self == OrderOrderField::UserId ==> r@ == "user._id"@,
            *self == OrderOrderField::Name ==> r@ == "name"@,
            *self == OrderOrderField::CreatedAt ==> r@ == "created_at"@,
            *self == OrderOrderField::LastUpdatedAt ==> r@ == "last_updated_at"@,
    {
        match self {
            OrderOrderField::Id => "_id",
            OrderOrderField::UserId => "user._id",
            OrderOrderField::Name => "name",
            OrderOrderField::CreatedAt => "created_at",
            OrderOrderField::LastUpdatedAt => "last_updated_at",
        }
    }

    /// The field used when none is given.
    pub fn default_value() -> (r: OrderOrderField)
        ensures
            r == OrderOrderField::Id,
    {
        OrderOrderField::Id
    }
}

/// How a list of orders should be ordered.
#[derive(Clone, Copy, PartialEq, Eq, Structural, Debug)]
pub struct OrderOrderInput {
    /// Order direction.
    pub direction: Option<OrderDirection>,
    /// Field to order by.
    pub field: Option<OrderOrderField>,
}

impl OrderOrderInput {
    /// The input used when none is given: ascending by id.
    pub fn default_value() -> (r: OrderOrderInput)
        ensures
            r.direction == Some(OrderDirection::Asc),
            r.field == Some(OrderOrderField::Id),
    {
        OrderOrderInput { direction: Some(OrderDirection::Asc), field: Some(OrderOrderField::Id) }
    }
}

/// The fields a list of owned entities can be ordered by.
#[derive(Clone, Copy, PartialEq, Eq, Structural, Debug)]
pub enum CommonOrderField {
    /// Orders by "id".
    Id,
}

impl CommonOrderField {
    /// The store key this field denotes.
    pub fn as_str(&self) -> (r: &'static str)
        ensures
            r@ == "_id"@,
    {
        match self {
            CommonOrderField::Id => "_id",
        }
    }

    /// The field used when none is given.
    pub fn default_value() -> (r: CommonOrderField)
        ensures
            r == CommonOrderField::Id,
    {
        CommonOrderField::Id
    }
}

/// How a list of owned entities should be ordered.
#[derive(Clone, Copy, PartialEq, Eq, Structural, Debug)]
pub struct CommonOrderInput {
    /// Order direction.
    pub direction: Option<OrderDirection>,
    /// Field to order by.
    pub field: Option<CommonOrderField>,
}

impl CommonOrderInput {
    /// The input used when none is given: ascending by id.
    pub fn default_value() -> (r: CommonOrderInput)
        ensures
            r.direction == Some(OrderDirection::Asc),
            r.field == Some(CommonOrderField::Id),
    {
        CommonOrderInput { direction: Some(OrderDirection::Asc), field: Some(CommonOrderField::Id) }
    }

    /// The effective direction: the stated one, or ascending.
    pub fn effective_direction(opt: &Option<CommonOrderInput>) -> (r: OrderDirection)
        ensures
            r == CommonOrderInput::effective_direction_spec(*opt),
    {
        match opt {
            Some(input) => match input.direction {
                Some(direction) => direction,
                None => OrderDirection::Asc,
            },
            None => OrderDirection::Asc,
        }
    }

    /// What `effective_direction` returns.
    pub open spec fn effective_direction_spec(opt: Option<CommonOrderInput>) -> OrderDirection {
        match opt {
            Some(input) => match input.direction {
                Some(direction) => direction,
                None => OrderDirection::Asc,
            },
            None => OrderDirection::Asc,
        }
    }
}

} // verus!
