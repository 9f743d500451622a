//! Request/response schemas of the resource endpoints, with the partial-
//! update rule each PATCH body follows: a field left out keeps the stored
//! value, a field supplied replaces it.

use vstd::prelude::*;

verus! {

/// Query options every list endpoint accepts.
#[derive(Debug, Default)]
pub struct FilterOptions {
    pub page: Option<usize>,
    pub limit: Option<usize>,
}

/// A path parameter carrying one id.
#[derive(Debug)]
pub struct ParamOptions {
    pub id: String,
}

/// The count row a list endpoint reads before fetching its page.
#[derive(Debug, Default)]
pub struct Response {
    pub count: Option<i64>,
}

#[derive(Debug)]
pub struct CreateImageSchema {
    pub name: String,
}

#[derive(Debug)]
pub struct UpdateImageSchema {
    pub name: Option<String>,
}

#[derive(Debug)]
pub struct CreateJobSchema {
    pub company: String,
    pub title: String,
    pub date: String,
    pub description: String,
}

#[derive(Debug)]
pub struct UpdateJobSchema {
    pub company: Option<String>,
    pub title: Option<String>,
    pub date: Option<String>,
    pub description: Option<String>,
}

impl UpdateJobSchema {
    /// The stored fields after this partial update is applied.
    pub fn apply(self, current: CreateJobSchema) -> (r: CreateJobSchema)
        ensures
            self.company matches Some(v) ==> r.company == v,
            self.company is None ==> r.company == current.company,
            self.title matches Some(v) ==> r.title == v,
            self.title is None ==> r.title == current.title,
            self.date matches Some(v) ==> r.date == v,
            self.date is None ==> r.date == current.date,
            self.description matches Some(v) ==> r.description == v,
            self.description is None ==> r.description == current.description,
    {
        CreateJobSchema {
            company: match self.company {
                Some(v) => v,
                None => current.company,
            },
            title: match self.title {
                Some(v) => v,
                None => current.title,
            },
            date: match self.date {
                Some(v) => v,
                None => current.date,
            },
            description: match self.description {
                Some(v) => v,
                None => current.description,
            },
        }
    }
}

#[derive(Debug)]
pub struct CreateProjectSchema {
    pub title: String,
    pub description: String,
    pub imgs: Vec<String>,
    pub demo: String,
    pub git: String,
    pub stacks: Vec<String>,
}

#[derive(Debug)]
pub struct UpdateProjectSchema {
    pub title: Option<String>,
    pub description: Option<String>,
    pub imgs: Option<Vec<String>>,
    pub demo: Option<String>,
    pub git: Option<String>,
    pub stacks: Option<Vec<String>>,
}

impl UpdateProjectSchema {
    /// The stored fields after this partial update is applied.
    pub fn apply(self, current: CreateProjectSchema) -> (r: CreateProjectSchema)
        ensures
            self.title matches Some(v) ==> r.title == v,
            self.title is None ==> r.title == current.title,
            self.description matches Some(v) ==> r.description == v,
            self.description is None ==> r.description == current.description,
            self.imgs matches Some(v) ==> r.imgs == v,
            self.imgs is None ==> r.imgs == current.imgs,
            self.demo matches Some(v) ==> r.demo == v,
            self.demo is None ==> r.demo == current.demo,
            self.git matches Some(v) ==> r.git == v,
            self.git is None ==> r.git == current.git,
            self.stacks matches Some(v) ==> r.stacks == v,
            self.stacks is None ==> r.stacks == current.stacks,
    {
        CreateProjectSchema {
            title: match self.title {
                Some(v) => v,
                None => current.title,
            },
            description: match self.description {
                Some(v) => v,
                None => current.description,
            },
            imgs: match self.imgs {
                Some(v) => v,
                None => current.imgs,
            },
            demo: match self.demo {
                Some(v) => v,
                None => current.demo,
            },
            git: match self.git {
                Some(v) => v,
                None => current.git,
            },
            stacks: match self.stacks {
                Some(v) => v,
                None => current.stacks,
            },
        }
    }
}

#[derive(Debug)]
pub struct CreateTestimonialSchema {
    pub name: String,
    pub comment: String,
    pub position: String,
    pub company: String,
    pub img: String,
}

#[derive(Debug)]
pub struct UpdateTestimonialSchema {
    pub name: Option<String>,
    pub comment: Option<String>,
    pub position: Option<String>,
    pub company: Option<String>,
    pub img: Option<String>,
}

impl UpdateTestimonialSchema {
    /// The stored fields after this partial update is applied.
    pub fn apply(self, current: CreateTestimonialSchema) -> (r: CreateTestimonialSchema)
        ensures
            self.name matches Some(v) ==> r.name == v,
            self.name is None ==> r.name == current.name,
            self.comment matches Some(v) ==> r.comment == v,
            self.comment is None ==> r.comment == current.comment,
            self.position matches Some(v) ==> r.position == v,
            self.position is None ==> r.position == current.position,
            self.company matches Some(v) ==> r.company == v,
            self.company is None ==> r.company == current.company,
            self.img matches Some(v) ==> r.img == v,
            self.img is None ==> r.img == current.img,
    {
        CreateTestimonialSchema {
            name: match self.name {
                Some(v) => v,
                None => current.name,
            },
            comment: match self.comment {
                Some(v) => v,
                None => current.comment,
            },
            position: match self.position {
                Some(v) => v,
                None => current.position,
            },
            company: match self.company {
                Some(v) => v,
                None => current.company,
            },
            img: match self.img {
                Some(v) => v,
                None => current.img,
            },
        }
    }
}

#[derive(Debug)]
pub struct CreateDetailSchema {
    pub title: String,
    pub logo: String,
    pub keywords: String,
    pub site_description: String,
    pub description: String,
    pub about: String,
    pub position: String,
    pub company: String,
    pub img: String,
}

#[derive(Debug)]
pub struct UpdateDetailSchema {
    pub title: Option<String>,
    pub logo: Option<String>,
    pub keywords: Option<String>,
    pub site_description: Option<String>,
    pub description: Option<String>,
    pub about: Option<String>,
    pub position: Option<String>,
    pub company: Option<String>,
    pub img: Option<String>,
}

impl UpdateDetailSchema {
    /// The stored fields after this partial update is applied.
    pub fn apply(self, current: CreateDetailSchema) -> (r: CreateDetailSchema)
        ensures
            self.title matches Some(v) ==> r.title == v,
            self.title is None ==> r.title == current.title,
            self.logo matches Some(v) ==> r.logo == v,
            self.logo is None ==> r.logo == current.logo,
            self.keywords matches Some(v) ==> r.keywords == v,
            self.keywords is None ==> r.keywords == current.keywords,
            self.site_description matches Some(v) ==> r.site_description == v,
            self.site_description is None ==> r.site_description == current.site_description,
            self.description matches Some(v) ==> r.description == v,
            self.description is None ==> r.description == current.description,
            self.about matches Some(v) ==> r.about == v,
            self.about is None ==> r.about == current.about,
            self.position matches Some(v) ==> r.position == v,
            self.position is None ==> r.position == current.position,
            self.company matches Some(v) ==> r.company == v,
            self.company is None ==> r.company == current.company,
            self.img matches Some(v) ==> r.img == v,
            self.img is None ==> r.img == current.img,
    {
        CreateDetailSchema {
            title: match self.title {
                Some(v) => v,
                None => current.title,
            },
            logo: match self.logo {
                Some(v) => v,
                None => current.logo,
            },
            keywords: match self.keywords {
                Some(v) => v,
                None => current.keywords,
            },
            site_description: match self.site_description {
                Some(v) => v,
                None => current.site_description,
            },
            description: match self.description {
                Some(v) => v,
                None => current.description,
            },
            about: match self.about {
                Some(v) => v,
                None => current.about,
            },
            position: match self.position {
                Some(v) => v,
                None => current.position,
            },
            company: match self.company {
                Some(v) => v,
                None => current.company,
            },
            img: match self.img {
                Some(v) => v,
                None => current.img,
            },
        }
    }
}

#[derive(Debug)]
pub struct CreateUserSchema {
    pub username: String,
    pub password: String,
    pub email: String,
    pub fullname: String,
    pub role: i16,
    pub avatar: String,
    pub notes: String,
    pub active: i16,
}

#[derive(Debug)]
pub struct UpdateUserSchema {
    pub username: Option<String>,
    pub password: Option<String>,
    pub email: Option<String>,
    pub fullname: Option<String>,
    pub role: Option<i16>,
    pub avatar: Option<String>,
    pub notes: Option<String>,
    pub active: Option<i16>,
}

impl UpdateUserSchema {
    /// The stored fields after this partial update is applied.
    pub fn apply(self, current: CreateUserSchema) -> (r: CreateUserSchema)
        ensures
            self.username matches Some(v) ==> r.username == v,
            self.username is None ==> r.username == current.username,
            self.password matches Some(v) ==> r.password == v,
            self.password is None ==> r.password == current.password,
            self.email matches Some(v) ==> r.email == v,
            self.email is None ==> r.email == current.email,
            self.fullname matches Some(v) ==> r.fullname == v,
            self.fullname is None ==> r.fullname == current.fullname,
            self.role matches Some(v) ==> r.role == v,
            self.role is None ==> r.role == current.role,
            self.avatar matches Some(v) ==> r.avatar == v,
            self.avatar is None ==> r.avatar == current.avatar,
            self.notes matches Some(v) ==> r.notes == v,
            self.notes is None ==> r.notes == current.notes,
            self.active matches Some(v) ==> r.active == v,
            self.active is None ==> r.active == current.active,
    {
        CreateUserSchema {
            username: match self.username {
                Some(v) => v,
                None => current.username,
            },
            password: match self.password {
                Some(v) => v,
                None => current.password,
            },
            email: match self.email {
                Some(v) => v,
                None => current.email,
            },
            fullname: match self.fullname {
                Some(v) => v,
                None => current.fullname,
            },
            role: match self.role {
                Some(v) => v,
                None => current.role,
            },
            avatar: match self.avatar {
                Some(v) => v,
                None => current.avatar,
            },
            notes: match self.notes {
                Some(v) => v,
                None => current.notes,
            },
            active: match self.active {
                Some(v) => v,
                None => current.active,
            },
        }
    }
}

} // verus!
